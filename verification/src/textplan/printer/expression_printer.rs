//! Expression printer for converting Substrait expressions to text format.

use vstd::prelude::*;

use crate::proto::{
    comma_joined, join_with_commas, AggregateFunction, ArgType, BasicKind, Cast, Expression, FunctionArgument,
    FunctionOption, IfClause, IfThen, Kind, KindView, RexType, ScalarFunction, Type, TypeView,
    NULLABILITY_NULLABLE, NULLABILITY_REQUIRED,
};
use crate::textplan::common::error::TextPlanError;
use crate::textplan::common::text_format::{push_signed_decimal, signed_decimal};
use crate::textplan::common::text_format::{decimal, digit_char, lemma_decimal_digits};
use crate::textplan::common::text_format::push_decimal;
use crate::textplan::common::text_ops::{concatenated, push_char, texts_view};
use crate::textplan::common::text_scan::{
    all_digits, digits_value, find_char, has_prefix, has_suffix, is_digit, is_whitespace,
    lemma_find_char, parse_i32_spec, trim_end, trim_start, trimmed,
};
use crate::textplan::printer::literal_printer::{literal_text, print_literal};
use crate::textplan::symbol_table::{
    BlobView, SymbolBlob, SymbolInfo, SymbolInfoView, SymbolTable, SymbolType,
};
use crate::textplan::parser::visitors::type_visitor::{
    base_type_text, basic_kind_named, nullable_flag, nullability_code, parse_type_spec,
    wrapped_content,
};

verus! {

/// The textplan name of a parameterless type.
pub open spec fn basic_kind_name(k: BasicKind) -> Seq<char> {
    match k {
        BasicKind::Bool => "bool"@,
        BasicKind::I8 => "i8"@,
        BasicKind::I16 => "i16"@,
        BasicKind::I32 => "i32"@,
        BasicKind::I64 => "i64"@,
        BasicKind::Fp32 => "fp32"@,
        BasicKind::Fp64 => "fp64"@,
        BasicKind::String => "string"@,
        BasicKind::Binary => "binary"@,
        BasicKind::Timestamp => "timestamp"@,
        BasicKind::Date => "date"@,
        BasicKind::Time => "time"@,
        BasicKind::IntervalYear => "interval_year"@,
        BasicKind::IntervalDay => "interval_day"@,
        BasicKind::TimestampTz => "timestamp_tz"@,
        BasicKind::Uuid => "uuid"@,
    }
}

/// `?` for a nullable type, nothing otherwise.
pub open spec fn nullable_mark(n: i32) -> Seq<char> {
    if n == NULLABILITY_NULLABLE {
        seq!['?']
    } else {
        Seq::empty()
    }
}

/// The textplan spelling of a type, or `None` for a type without a kind.
pub open spec fn type_text_spec(t: TypeView) -> Option<Seq<char>> {
    match t.kind {
        None => None,
        Some(k) => Some(
            match k {
                KindView::Basic(b, n) => basic_kind_name(b) + nullable_mark(n),
                KindView::FixedChar(len, n) => "fixedchar"@ + nullable_mark(n) + seq!['<']
                    + signed_decimal(len as int) + seq!['>'],
                KindView::Varchar(len, n) => "varchar"@ + nullable_mark(n) + seq!['<']
                    + signed_decimal(len as int) + seq!['>'],
                KindView::FixedBinary(len, n) => "fixedbinary"@ + nullable_mark(n) + seq!['<']
                    + signed_decimal(len as int) + seq!['>'],
                KindView::Decimal(p, s, n) => "decimal"@ + nullable_mark(n) + seq!['<']
                    + signed_decimal(p as int) + seq![','] + signed_decimal(s as int) + seq!['>'],
                KindView::Struct(_, _) => "STRUCT_TYPE_NOT_YET_IMPLEMENTED"@,
                KindView::List(_, _) => "LIST_TYPE_NOT_YET_IMPLEMENTED"@,
                KindView::KeyValueMap(_, _, _) => "MAP_TYPE_NOT_YET_IMPLEMENTED"@,
                KindView::UserDefined => "USER_DEFINED_TYPE_NOT_YET_IMPLEMENTED"@,
                KindView::UserDefinedTypeReference => "USER_DEFINED_TYPE_REF_NOT_YET_IMPLEMENTED"@,
                KindView::IntervalCompound => "INTERVAL_COMPOUND_TYPE_NOT_YET_IMPLEMENTED"@,
                KindView::PrecisionTime => "PRECISION_TIME_TYPE_NOT_YET_IMPLEMENTED"@,
                KindView::PrecisionTimestamp => "PRECISION_TIMESTAMP_TYPE_NOT_YET_IMPLEMENTED"@,
                KindView::PrecisionTimestampTz => "PRECISION_TIMESTAMP_TZ_TYPE_NOT_YET_IMPLEMENTED"@,
                KindView::Alias => "ALIAS_TYPE_NOT_YET_IMPLEMENTED"@,
            },
        ),
    }
}

/// The textplan name of a parameterless type.
fn basic_kind_text(k: BasicKind) -> (r: &'static str)
    ensures
        r@ == basic_kind_name(k),
{
    match k {
        BasicKind::Bool => "bool",
        BasicKind::I8 => "i8",
        BasicKind::I16 => "i16",
        BasicKind::I32 => "i32",
        BasicKind::I64 => "i64",
        BasicKind::Fp32 => "fp32",
        BasicKind::Fp64 => "fp64",
        BasicKind::String => "string",
        BasicKind::Binary => "binary",
        BasicKind::Timestamp => "timestamp",
        BasicKind::Date => "date",
        BasicKind::Time => "time",
        BasicKind::IntervalYear => "interval_year",
        BasicKind::IntervalDay => "interval_day",
        BasicKind::TimestampTz => "timestamp_tz",
        BasicKind::Uuid => "uuid",
    }
}

/// Appends `name`, the nullability mark and `<`.
fn open_parameters(out: &mut String, name: &str, n: i32)
    ensures
        final(out)@ == old(out)@ + name@ + nullable_mark(n) + seq!['<'],
{
    out.append(name);
    if n == NULLABILITY_NULLABLE {
        push_char(out, '?');
    }
    push_char(out, '<');
    assert(final(out)@ =~= old(out)@ + name@ + nullable_mark(n) + seq!['<']);
}

/// Prints a type annotation: `bool?`, `varchar<10>`, `decimal<10,2>` and the like. A type
/// without a kind is an error.
pub fn print_type_text(type_val: &Type) -> (r: Result<String, TextPlanError>)
    ensures
        type_text_spec(type_val@) matches Some(text) ==> (r matches Ok(s) && s@ == text),
        type_text_spec(type_val@) is None ==> (r matches Err(TextPlanError::InvalidExpression(m))
            && m@ == "Type has no kind"@),
{
    let mut result = String::new();
    match &type_val.kind {
        None => Err(TextPlanError::InvalidExpression(String::from_str("Type has no kind"))),
        Some(Kind::Basic { kind, nullability }) => {
            result.append(basic_kind_text(*kind));
            if *nullability == NULLABILITY_NULLABLE {
                push_char(&mut result, '?');
            }
            assert(result@ =~= basic_kind_name(*kind) + nullable_mark(*nullability));
            Ok(result)
        },
        Some(Kind::FixedChar { length, nullability }) => {
            open_parameters(&mut result, "fixedchar", *nullability);
            push_signed_decimal(&mut result, *length as i64);
            push_char(&mut result, '>');
            Ok(result)
        },
        Some(Kind::Varchar { length, nullability }) => {
            open_parameters(&mut result, "varchar", *nullability);
            push_signed_decimal(&mut result, *length as i64);
            push_char(&mut result, '>');
            Ok(result)
        },
        Some(Kind::FixedBinary { length, nullability }) => {
            open_parameters(&mut result, "fixedbinary", *nullability);
            push_signed_decimal(&mut result, *length as i64);
            push_char(&mut result, '>');
            Ok(result)
        },
        Some(Kind::Decimal { precision, scale, nullability }) => {
            open_parameters(&mut result, "decimal", *nullability);
            push_signed_decimal(&mut result, *precision as i64);
            push_char(&mut result, ',');
            push_signed_decimal(&mut result, *scale as i64);
            push_char(&mut result, '>');
            Ok(result)
        },
        Some(Kind::Struct { .. }) => Ok(String::from_str("STRUCT_TYPE_NOT_YET_IMPLEMENTED")),
        Some(Kind::List { .. }) => Ok(String::from_str("LIST_TYPE_NOT_YET_IMPLEMENTED")),
        Some(Kind::KeyValueMap { .. }) => Ok(String::from_str("MAP_TYPE_NOT_YET_IMPLEMENTED")),
        Some(Kind::UserDefined) => Ok(String::from_str("USER_DEFINED_TYPE_NOT_YET_IMPLEMENTED")),
        Some(Kind::UserDefinedTypeReference) => Ok(
            String::from_str("USER_DEFINED_TYPE_REF_NOT_YET_IMPLEMENTED"),
        ),
        Some(Kind::IntervalCompound) => Ok(
            String::from_str("INTERVAL_COMPOUND_TYPE_NOT_YET_IMPLEMENTED"),
        ),
        Some(Kind::PrecisionTime) => Ok(String::from_str("PRECISION_TIME_TYPE_NOT_YET_IMPLEMENTED")),
        Some(Kind::PrecisionTimestamp) => Ok(
            String::from_str("PRECISION_TIMESTAMP_TYPE_NOT_YET_IMPLEMENTED"),
        ),
        Some(Kind::PrecisionTimestampTz) => Ok(
            String::from_str("PRECISION_TIMESTAMP_TZ_TYPE_NOT_YET_IMPLEMENTED"),
        ),
        Some(Kind::Alias) => Ok(String::from_str("ALIAS_TYPE_NOT_YET_IMPLEMENTED")),
    }
}



/// Facts about the decimal text of an `i32`: it is not empty, it is made of digits after an
/// optional `-`, trimming leaves it alone and reading it back gives the number.
proof fn lemma_signed_decimal(v: i32)
    ensures
        signed_decimal(v as int).len() > 0,
        forall|i: int|
            0 <= i < signed_decimal(v as int).len() ==> (is_digit(
                #[trigger] signed_decimal(v as int)[i],
            ) || signed_decimal(v as int)[i] == '-'),
        is_digit(signed_decimal(v as int).last()),
        trimmed(signed_decimal(v as int)) == signed_decimal(v as int),
        parse_i32_spec(signed_decimal(v as int)) == Some(v),
{
    let d = signed_decimal(v as int);
    if v < 0 {
        lemma_decimal_digits((-v) as nat);
        assert(d.drop_first() =~= decimal((-v) as nat));
        assert(!is_digit(d[0]));
        assert(d.last() == decimal((-v) as nat).last());
        assert forall|i: int| 0 <= i < d.len() implies (is_digit(#[trigger] d[i]) || d[i] == '-') by {
            if i > 0 {
                assert(d[i] == decimal((-v) as nat)[i - 1]);
            }
        }
    } else {
        lemma_decimal_digits(v as nat);
    }
    assert(is_digit(d[0]) || d[0] == '-');
    assert(!is_whitespace(d[0]));
    assert(trim_start(d) == d);
    assert(!is_whitespace(d.last()));
    assert(trim_end(d) == d);
}

/// Whether the printer spells out a type in full: a parameterless, length or decimal type,
/// nullable or required.
pub open spec fn is_fully_printed(t: TypeView) -> bool {
    match t.kind {
        Some(KindView::Basic(_, n)) => n == 1 || n == 2,
        Some(KindView::FixedChar(_, n)) => n == 1 || n == 2,
        Some(KindView::Varchar(_, n)) => n == 1 || n == 2,
        Some(KindView::FixedBinary(_, n)) => n == 1 || n == 2,
        Some(KindView::Decimal(_, _, n)) => n == 1 || n == 2,
        _ => false,
    }
}

proof fn lemma_no_char(s: Seq<char>, c: char)
    requires
        forall|i: int| 0 <= i < s.len() ==> #[trigger] s[i] != c,
    ensures
        find_char(s, c) is None,
{
    lemma_find_char(s, c, s.len() as int);
}

proof fn lemma_no_lt_prefix(name: Seq<char>, p: Seq<char>)
    requires
        forall|i: int| 0 <= i < name.len() ==> #[trigger] name[i] != '<',
        p.len() > 0,
        p.last() == '<',
    ensures
        !has_prefix(name, p),
{
    if has_prefix(name, p) {
        assert(name.take(p.len() as int)[p.len() - 1] == name[p.len() - 1]);
    }
}

proof fn lemma_basic_kind_named(k: BasicKind)
    ensures
        basic_kind_named(basic_kind_name(k)) == Some(k),
{
    match k {
        BasicKind::Bool => {
            reveal_strlit("bool");
            reveal_strlit("boolean");
            assert("bool"@ != "boolean"@) by {
                assert("bool"@.len() != "boolean"@.len());
            }
        },
        BasicKind::I8 => {
            reveal_strlit("bool");
            reveal_strlit("boolean");
            reveal_strlit("i8");
            assert("i8"@ != "boolean"@) by {
                assert("i8"@.len() != "boolean"@.len());
            }
            assert("i8"@ != "bool"@) by {
                assert("i8"@.len() != "bool"@.len());
            }
        },
        BasicKind::I16 => {
            reveal_strlit("bool");
            reveal_strlit("boolean");
            reveal_strlit("i16");
            reveal_strlit("i8");
            reveal_strlit("int8");
            reveal_strlit("tinyint");
            assert("i16"@ != "boolean"@) by {
                assert("i16"@.len() != "boolean"@.len());
            }
            assert("i16"@ != "bool"@) by {
                assert("i16"@.len() != "bool"@.len());
            }
            assert("i16"@ != "i8"@) by {
                assert("i16"@.len() != "i8"@.len());
            }
            assert("i16"@ != "int8"@) by {
                assert("i16"@.len() != "int8"@.len());
            }
            assert("i16"@ != "tinyint"@) by {
                assert("i16"@.len() != "tinyint"@.len());
            }
        },
        BasicKind::I32 => {
            reveal_strlit("bool");
            reveal_strlit("boolean");
            reveal_strlit("i16");
            reveal_strlit("i32");
            reveal_strlit("i8");
            reveal_strlit("int16");
            reveal_strlit("int8");
            reveal_strlit("smallint");
            reveal_strlit("tinyint");
            assert("i32"@ != "boolean"@) by {
                assert("i32"@.len() != "boolean"@.len());
            }
            assert("i32"@ != "bool"@) by {
                assert("i32"@.len() != "bool"@.len());
            }
            assert("i32"@ != "i8"@) by {
                assert("i32"@.len() != "i8"@.len());
            }
            assert("i32"@ != "int8"@) by {
                assert("i32"@.len() != "int8"@.len());
            }
            assert("i32"@ != "tinyint"@) by {
                assert("i32"@.len() != "tinyint"@.len());
            }
            assert("i32"@ != "i16"@) by {
                assert("i32"@[1] != "i16"@[1]);
            }
            assert("i32"@ != "int16"@) by {
                assert("i32"@.len() != "int16"@.len());
            }
            assert("i32"@ != "smallint"@) by {
                assert("i32"@.len() != "smallint"@.len());
            }
        },
        BasicKind::I64 => {
            reveal_strlit("bool");
            reveal_strlit("boolean");
            reveal_strlit("i16");
            reveal_strlit("i32");
            reveal_strlit("i64");
            reveal_strlit("i8");
            reveal_strlit("int");
            reveal_strlit("int16");
            reveal_strlit("int32");
            reveal_strlit("int8");
            reveal_strlit("smallint");
            reveal_strlit("tinyint");
            assert("i64"@ != "boolean"@) by {
                assert("i64"@.len() != "boolean"@.len());
            }
            assert("i64"@ != "bool"@) by {
                assert("i64"@.len() != "bool"@.len());
            }
            assert("i64"@ != "i8"@) by {
                assert("i64"@.len() != "i8"@.len());
            }
            assert("i64"@ != "int8"@) by {
                assert("i64"@.len() != "int8"@.len());
            }
            assert("i64"@ != "tinyint"@) by {
                assert("i64"@.len() != "tinyint"@.len());
            }
            assert("i64"@ != "i16"@) by {
                assert("i64"@[1] != "i16"@[1]);
            }
            assert("i64"@ != "int16"@) by {
                assert("i64"@.len() != "int16"@.len());
            }
            assert("i64"@ != "smallint"@) by {
                assert("i64"@.len() != "smallint"@.len());
            }
            assert("i64"@ != "i32"@) by {
                assert("i64"@[1] != "i32"@[1]);
            }
            assert("i64"@ != "int32"@) by {
                assert("i64"@.len() != "int32"@.len());
            }
            assert("i64"@ != "int"@) by {
                assert("i64"@[1] != "int"@[1]);
            }
        },
        BasicKind::Fp32 => {
            reveal_strlit("bigint");
            reveal_strlit("bool");
            reveal_strlit("boolean");
            reveal_strlit("fp32");
            reveal_strlit("i16");
            reveal_strlit("i32");
            reveal_strlit("i64");
            reveal_strlit("i8");
            reveal_strlit("int");
            reveal_strlit("int16");
            reveal_strlit("int32");
            reveal_strlit("int64");
            reveal_strlit("int8");
            reveal_strlit("smallint");
            reveal_strlit("tinyint");
            assert("fp32"@ != "boolean"@) by {
                assert("fp32"@.len() != "boolean"@.len());
            }
            assert("fp32"@ != "bool"@) by {
                assert("fp32"@[0] != "bool"@[0]);
            }
            assert("fp32"@ != "i8"@) by {
                assert("fp32"@.len() != "i8"@.len());
            }
            assert("fp32"@ != "int8"@) by {
                assert("fp32"@[0] != "int8"@[0]);
            }
            assert("fp32"@ != "tinyint"@) by {
                assert("fp32"@.len() != "tinyint"@.len());
            }
            assert("fp32"@ != "i16"@) by {
                assert("fp32"@.len() != "i16"@.len());
            }
            assert("fp32"@ != "int16"@) by {
                assert("fp32"@.len() != "int16"@.len());
            }
            assert("fp32"@ != "smallint"@) by {
                assert("fp32"@.len() != "smallint"@.len());
            }
            assert("fp32"@ != "i32"@) by {
                assert("fp32"@.len() != "i32"@.len());
            }
            assert("fp32"@ != "int32"@) by {
                assert("fp32"@.len() != "int32"@.len());
            }
            assert("fp32"@ != "int"@) by {
                assert("fp32"@.len() != "int"@.len());
            }
            assert("fp32"@ != "i64"@) by {
                assert("fp32"@.len() != "i64"@.len());
            }
            assert("fp32"@ != "int64"@) by {
                assert("fp32"@.len() != "int64"@.len());
            }
            assert("fp32"@ != "bigint"@) by {
                assert("fp32"@.len() != "bigint"@.len());
            }
        },
        BasicKind::Fp64 => {
            reveal_strlit("bigint");
            reveal_strlit("bool");
            reveal_strlit("boolean");
            reveal_strlit("float");
            reveal_strlit("fp32");
            reveal_strlit("fp64");
            reveal_strlit("i16");
            reveal_strlit("i32");
            reveal_strlit("i64");
            reveal_strlit("i8");
            reveal_strlit("int");
            reveal_strlit("int16");
            reveal_strlit("int32");
            reveal_strlit("int64");
            reveal_strlit("int8");
            reveal_strlit("smallint");
            reveal_strlit("tinyint");
            assert("fp64"@ != "boolean"@) by {
                assert("fp64"@.len() != "boolean"@.len());
            }
            assert("fp64"@ != "bool"@) by {
                assert("fp64"@[0] != "bool"@[0]);
            }
            assert("fp64"@ != "i8"@) by {
                assert("fp64"@.len() != "i8"@.len());
            }
            assert("fp64"@ != "int8"@) by {
                assert("fp64"@[0] != "int8"@[0]);
            }
            assert("fp64"@ != "tinyint"@) by {
                assert("fp64"@.len() != "tinyint"@.len());
            }
            assert("fp64"@ != "i16"@) by {
                assert("fp64"@.len() != "i16"@.len());
            }
            assert("fp64"@ != "int16"@) by {
                assert("fp64"@.len() != "int16"@.len());
            }
            assert("fp64"@ != "smallint"@) by {
                assert("fp64"@.len() != "smallint"@.len());
            }
            assert("fp64"@ != "i32"@) by {
                assert("fp64"@.len() != "i32"@.len());
            }
            assert("fp64"@ != "int32"@) by {
                assert("fp64"@.len() != "int32"@.len());
            }
            assert("fp64"@ != "int"@) by {
                assert("fp64"@.len() != "int"@.len());
            }
            assert("fp64"@ != "i64"@) by {
                assert("fp64"@.len() != "i64"@.len());
            }
            assert("fp64"@ != "int64"@) by {
                assert("fp64"@.len() != "int64"@.len());
            }
            assert("fp64"@ != "bigint"@) by {
                assert("fp64"@.len() != "bigint"@.len());
            }
            assert("fp64"@ != "fp32"@) by {
                assert("fp64"@[2] != "fp32"@[2]);
            }
            assert("fp64"@ != "float"@) by {
                assert("fp64"@.len() != "float"@.len());
            }
        },
        BasicKind::String => {
            reveal_strlit("bigint");
            reveal_strlit("bool");
            reveal_strlit("boolean");
            reveal_strlit("double");
            reveal_strlit("float");
            reveal_strlit("fp32");
            reveal_strlit("fp64");
            reveal_strlit("i16");
            reveal_strlit("i32");
            reveal_strlit("i64");
            reveal_strlit("i8");
            reveal_strlit("int");
            reveal_strlit("int16");
            reveal_strlit("int32");
            reveal_strlit("int64");
            reveal_strlit("int8");
            reveal_strlit("smallint");
            reveal_strlit("string");
            reveal_strlit("tinyint");
            assert("string"@ != "boolean"@) by {
                assert("string"@.len() != "boolean"@.len());
            }
            assert("string"@ != "bool"@) by {
                assert("string"@.len() != "bool"@.len());
            }
            assert("string"@ != "i8"@) by {
                assert("string"@.len() != "i8"@.len());
            }
            assert("string"@ != "int8"@) by {
                assert("string"@.len() != "int8"@.len());
            }
            assert("string"@ != "tinyint"@) by {
                assert("string"@.len() != "tinyint"@.len());
            }
            assert("string"@ != "i16"@) by {
                assert("string"@.len() != "i16"@.len());
            }
            assert("string"@ != "int16"@) by {
                assert("string"@.len() != "int16"@.len());
            }
            assert("string"@ != "smallint"@) by {
                assert("string"@.len() != "smallint"@.len());
            }
            assert("string"@ != "i32"@) by {
                assert("string"@.len() != "i32"@.len());
            }
            assert("string"@ != "int32"@) by {
                assert("string"@.len() != "int32"@.len());
            }
            assert("string"@ != "int"@) by {
                assert("string"@.len() != "int"@.len());
            }
            assert("string"@ != "i64"@) by {
                assert("string"@.len() != "i64"@.len());
            }
            assert("string"@ != "int64"@) by {
                assert("string"@.len() != "int64"@.len());
            }
            assert("string"@ != "bigint"@) by {
                assert("string"@[0] != "bigint"@[0]);
            }
            assert("string"@ != "fp32"@) by {
                assert("string"@.len() != "fp32"@.len());
            }
            assert("string"@ != "float"@) by {
                assert("string"@.len() != "float"@.len());
            }
            assert("string"@ != "fp64"@) by {
                assert("string"@.len() != "fp64"@.len());
            }
            assert("string"@ != "double"@) by {
                assert("string"@[0] != "double"@[0]);
            }
        },
        BasicKind::Binary => {
            reveal_strlit("bigint");
            reveal_strlit("binary");
            reveal_strlit("bool");
            reveal_strlit("boolean");
            reveal_strlit("double");
            reveal_strlit("float");
            reveal_strlit("fp32");
            reveal_strlit("fp64");
            reveal_strlit("i16");
            reveal_strlit("i32");
            reveal_strlit("i64");
            reveal_strlit("i8");
            reveal_strlit("int");
            reveal_strlit("int16");
            reveal_strlit("int32");
            reveal_strlit("int64");
            reveal_strlit("int8");
            reveal_strlit("smallint");
            reveal_strlit("string");
            reveal_strlit("tinyint");
            assert("binary"@ != "boolean"@) by {
                assert("binary"@.len() != "boolean"@.len());
            }
            assert("binary"@ != "bool"@) by {
                assert("binary"@.len() != "bool"@.len());
            }
            assert("binary"@ != "i8"@) by {
                assert("binary"@.len() != "i8"@.len());
            }
            assert("binary"@ != "int8"@) by {
                assert("binary"@.len() != "int8"@.len());
            }
            assert("binary"@ != "tinyint"@) by {
                assert("binary"@.len() != "tinyint"@.len());
            }
            assert("binary"@ != "i16"@) by {
                assert("binary"@.len() != "i16"@.len());
            }
            assert("binary"@ != "int16"@) by {
                assert("binary"@.len() != "int16"@.len());
            }
            assert("binary"@ != "smallint"@) by {
                assert("binary"@.len() != "smallint"@.len());
            }
            assert("binary"@ != "i32"@) by {
                assert("binary"@.len() != "i32"@.len());
            }
            assert("binary"@ != "int32"@) by {
                assert("binary"@.len() != "int32"@.len());
            }
            assert("binary"@ != "int"@) by {
                assert("binary"@.len() != "int"@.len());
            }
            assert("binary"@ != "i64"@) by {
                assert("binary"@.len() != "i64"@.len());
            }
            assert("binary"@ != "int64"@) by {
                assert("binary"@.len() != "int64"@.len());
            }
            assert("binary"@ != "bigint"@) by {
                assert("binary"@[2] != "bigint"@[2]);
            }
            assert("binary"@ != "fp32"@) by {
                assert("binary"@.len() != "fp32"@.len());
            }
            assert("binary"@ != "float"@) by {
                assert("binary"@.len() != "float"@.len());
            }
            assert("binary"@ != "fp64"@) by {
                assert("binary"@.len() != "fp64"@.len());
            }
            assert("binary"@ != "double"@) by {
                assert("binary"@[0] != "double"@[0]);
            }
            assert("binary"@ != "string"@) by {
                assert("binary"@[0] != "string"@[0]);
            }
        },
        BasicKind::Timestamp => {
            reveal_strlit("bigint");
            reveal_strlit("binary");
            reveal_strlit("bool");
            reveal_strlit("boolean");
            reveal_strlit("double");
            reveal_strlit("float");
            reveal_strlit("fp32");
            reveal_strlit("fp64");
            reveal_strlit("i16");
            reveal_strlit("i32");
            reveal_strlit("i64");
            reveal_strlit("i8");
            reveal_strlit("int");
            reveal_strlit("int16");
            reveal_strlit("int32");
            reveal_strlit("int64");
            reveal_strlit("int8");
            reveal_strlit("smallint");
            reveal_strlit("string");
            reveal_strlit("timestamp");
            reveal_strlit("tinyint");
            assert("timestamp"@ != "boolean"@) by {
                assert("timestamp"@.len() != "boolean"@.len());
            }
            assert("timestamp"@ != "bool"@) by {
                assert("timestamp"@.len() != "bool"@.len());
            }
            assert("timestamp"@ != "i8"@) by {
                assert("timestamp"@.len() != "i8"@.len());
            }
            assert("timestamp"@ != "int8"@) by {
                assert("timestamp"@.len() != "int8"@.len());
            }
            assert("timestamp"@ != "tinyint"@) by {
                assert("timestamp"@.len() != "tinyint"@.len());
            }
            assert("timestamp"@ != "i16"@) by {
                assert("timestamp"@.len() != "i16"@.len());
            }
            assert("timestamp"@ != "int16"@) by {
                assert("timestamp"@.len() != "int16"@.len());
            }
            assert("timestamp"@ != "smallint"@) by {
                assert("timestamp"@.len() != "smallint"@.len());
            }
            assert("timestamp"@ != "i32"@) by {
                assert("timestamp"@.len() != "i32"@.len());
            }
            assert("timestamp"@ != "int32"@) by {
                assert("timestamp"@.len() != "int32"@.len());
            }
            assert("timestamp"@ != "int"@) by {
                assert("timestamp"@.len() != "int"@.len());
            }
            assert("timestamp"@ != "i64"@) by {
                assert("timestamp"@.len() != "i64"@.len());
            }
            assert("timestamp"@ != "int64"@) by {
                assert("timestamp"@.len() != "int64"@.len());
            }
            assert("timestamp"@ != "bigint"@) by {
                assert("timestamp"@.len() != "bigint"@.len());
            }
            assert("timestamp"@ != "fp32"@) by {
                assert("timestamp"@.len() != "fp32"@.len());
            }
            assert("timestamp"@ != "float"@) by {
                assert("timestamp"@.len() != "float"@.len());
            }
            assert("timestamp"@ != "fp64"@) by {
                assert("timestamp"@.len() != "fp64"@.len());
            }
            assert("timestamp"@ != "double"@) by {
                assert("timestamp"@.len() != "double"@.len());
            }
            assert("timestamp"@ != "string"@) by {
                assert("timestamp"@.len() != "string"@.len());
            }
            assert("timestamp"@ != "binary"@) by {
                assert("timestamp"@.len() != "binary"@.len());
            }
        },
        BasicKind::Date => {
            reveal_strlit("bigint");
            reveal_strlit("binary");
            reveal_strlit("bool");
            reveal_strlit("boolean");
            reveal_strlit("date");
            reveal_strlit("double");
            reveal_strlit("float");
            reveal_strlit("fp32");
            reveal_strlit("fp64");
            reveal_strlit("i16");
            reveal_strlit("i32");
            reveal_strlit("i64");
            reveal_strlit("i8");
            reveal_strlit("int");
            reveal_strlit("int16");
            reveal_strlit("int32");
            reveal_strlit("int64");
            reveal_strlit("int8");
            reveal_strlit("smallint");
            reveal_strlit("string");
            reveal_strlit("timestamp");
            reveal_strlit("timestamp_tz");
            reveal_strlit("tinyint");
            assert("date"@ != "boolean"@) by {
                assert("date"@.len() != "boolean"@.len());
            }
            assert("date"@ != "bool"@) by {
                assert("date"@[0] != "bool"@[0]);
            }
            assert("date"@ != "i8"@) by {
                assert("date"@.len() != "i8"@.len());
            }
            assert("date"@ != "int8"@) by {
                assert("date"@[0] != "int8"@[0]);
            }
            assert("date"@ != "tinyint"@) by {
                assert("date"@.len() != "tinyint"@.len());
            }
            assert("date"@ != "i16"@) by {
                assert("date"@.len() != "i16"@.len());
            }
            assert("date"@ != "int16"@) by {
                assert("date"@.len() != "int16"@.len());
            }
            assert("date"@ != "smallint"@) by {
                assert("date"@.len() != "smallint"@.len());
            }
            assert("date"@ != "i32"@) by {
                assert("date"@.len() != "i32"@.len());
            }
            assert("date"@ != "int32"@) by {
                assert("date"@.len() != "int32"@.len());
            }
            assert("date"@ != "int"@) by {
                assert("date"@.len() != "int"@.len());
            }
            assert("date"@ != "i64"@) by {
                assert("date"@.len() != "i64"@.len());
            }
            assert("date"@ != "int64"@) by {
                assert("date"@.len() != "int64"@.len());
            }
            assert("date"@ != "bigint"@) by {
                assert("date"@.len() != "bigint"@.len());
            }
            assert("date"@ != "fp32"@) by {
                assert("date"@[0] != "fp32"@[0]);
            }
            assert("date"@ != "float"@) by {
                assert("date"@.len() != "float"@.len());
            }
            assert("date"@ != "fp64"@) by {
                assert("date"@[0] != "fp64"@[0]);
            }
            assert("date"@ != "double"@) by {
                assert("date"@.len() != "double"@.len());
            }
            assert("date"@ != "string"@) by {
                assert("date"@.len() != "string"@.len());
            }
            assert("date"@ != "binary"@) by {
                assert("date"@.len() != "binary"@.len());
            }
            assert("date"@ != "timestamp"@) by {
                assert("date"@.len() != "timestamp"@.len());
            }
            assert("date"@ != "timestamp_tz"@) by {
                assert("date"@.len() != "timestamp_tz"@.len());
            }
        },
        BasicKind::Time => {
            reveal_strlit("bigint");
            reveal_strlit("binary");
            reveal_strlit("bool");
            reveal_strlit("boolean");
            reveal_strlit("date");
            reveal_strlit("double");
            reveal_strlit("float");
            reveal_strlit("fp32");
            reveal_strlit("fp64");
            reveal_strlit("i16");
            reveal_strlit("i32");
            reveal_strlit("i64");
            reveal_strlit("i8");
            reveal_strlit("int");
            reveal_strlit("int16");
            reveal_strlit("int32");
            reveal_strlit("int64");
            reveal_strlit("int8");
            reveal_strlit("smallint");
            reveal_strlit("string");
            reveal_strlit("time");
            reveal_strlit("timestamp");
            reveal_strlit("timestamp_tz");
            reveal_strlit("tinyint");
            assert("time"@ != "boolean"@) by {
                assert("time"@.len() != "boolean"@.len());
            }
            assert("time"@ != "bool"@) by {
                assert("time"@[0] != "bool"@[0]);
            }
            assert("time"@ != "i8"@) by {
                assert("time"@.len() != "i8"@.len());
            }
            assert("time"@ != "int8"@) by {
                assert("time"@[0] != "int8"@[0]);
            }
            assert("time"@ != "tinyint"@) by {
                assert("time"@.len() != "tinyint"@.len());
            }
            assert("time"@ != "i16"@) by {
                assert("time"@.len() != "i16"@.len());
            }
            assert("time"@ != "int16"@) by {
                assert("time"@.len() != "int16"@.len());
            }
            assert("time"@ != "smallint"@) by {
                assert("time"@.len() != "smallint"@.len());
            }
            assert("time"@ != "i32"@) by {
                assert("time"@.len() != "i32"@.len());
            }
            assert("time"@ != "int32"@) by {
                assert("time"@.len() != "int32"@.len());
            }
            assert("time"@ != "int"@) by {
                assert("time"@.len() != "int"@.len());
            }
            assert("time"@ != "i64"@) by {
                assert("time"@.len() != "i64"@.len());
            }
            assert("time"@ != "int64"@) by {
                assert("time"@.len() != "int64"@.len());
            }
            assert("time"@ != "bigint"@) by {
                assert("time"@.len() != "bigint"@.len());
            }
            assert("time"@ != "fp32"@) by {
                assert("time"@[0] != "fp32"@[0]);
            }
            assert("time"@ != "float"@) by {
                assert("time"@.len() != "float"@.len());
            }
            assert("time"@ != "fp64"@) by {
                assert("time"@[0] != "fp64"@[0]);
            }
            assert("time"@ != "double"@) by {
                assert("time"@.len() != "double"@.len());
            }
            assert("time"@ != "string"@) by {
                assert("time"@.len() != "string"@.len());
            }
            assert("time"@ != "binary"@) by {
                assert("time"@.len() != "binary"@.len());
            }
            assert("time"@ != "timestamp"@) by {
                assert("time"@.len() != "timestamp"@.len());
            }
            assert("time"@ != "timestamp_tz"@) by {
                assert("time"@.len() != "timestamp_tz"@.len());
            }
            assert("time"@ != "date"@) by {
                assert("time"@[0] != "date"@[0]);
            }
        },
        BasicKind::IntervalYear => {
            reveal_strlit("bigint");
            reveal_strlit("binary");
            reveal_strlit("bool");
            reveal_strlit("boolean");
            reveal_strlit("date");
            reveal_strlit("double");
            reveal_strlit("float");
            reveal_strlit("fp32");
            reveal_strlit("fp64");
            reveal_strlit("i16");
            reveal_strlit("i32");
            reveal_strlit("i64");
            reveal_strlit("i8");
            reveal_strlit("int");
            reveal_strlit("int16");
            reveal_strlit("int32");
            reveal_strlit("int64");
            reveal_strlit("int8");
            reveal_strlit("interval_year");
            reveal_strlit("smallint");
            reveal_strlit("string");
            reveal_strlit("time");
            reveal_strlit("timestamp");
            reveal_strlit("timestamp_tz");
            reveal_strlit("tinyint");
            assert("interval_year"@ != "boolean"@) by {
                assert("interval_year"@.len() != "boolean"@.len());
            }
            assert("interval_year"@ != "bool"@) by {
                assert("interval_year"@.len() != "bool"@.len());
            }
            assert("interval_year"@ != "i8"@) by {
                assert("interval_year"@.len() != "i8"@.len());
            }
            assert("interval_year"@ != "int8"@) by {
                assert("interval_year"@.len() != "int8"@.len());
            }
            assert("interval_year"@ != "tinyint"@) by {
                assert("interval_year"@.len() != "tinyint"@.len());
            }
            assert("interval_year"@ != "i16"@) by {
                assert("interval_year"@.len() != "i16"@.len());
            }
            assert("interval_year"@ != "int16"@) by {
                assert("interval_year"@.len() != "int16"@.len());
            }
            assert("interval_year"@ != "smallint"@) by {
                assert("interval_year"@.len() != "smallint"@.len());
            }
            assert("interval_year"@ != "i32"@) by {
                assert("interval_year"@.len() != "i32"@.len());
            }
            assert("interval_year"@ != "int32"@) by {
                assert("interval_year"@.len() != "int32"@.len());
            }
            assert("interval_year"@ != "int"@) by {
                assert("interval_year"@.len() != "int"@.len());
            }
            assert("interval_year"@ != "i64"@) by {
                assert("interval_year"@.len() != "i64"@.len());
            }
            assert("interval_year"@ != "int64"@) by {
                assert("interval_year"@.len() != "int64"@.len());
            }
            assert("interval_year"@ != "bigint"@) by {
                assert("interval_year"@.len() != "bigint"@.len());
            }
            assert("interval_year"@ != "fp32"@) by {
                assert("interval_year"@.len() != "fp32"@.len());
            }
            assert("interval_year"@ != "float"@) by {
                assert("interval_year"@.len() != "float"@.len());
            }
            assert("interval_year"@ != "fp64"@) by {
                assert("interval_year"@.len() != "fp64"@.len());
            }
            assert("interval_year"@ != "double"@) by {
                assert("interval_year"@.len() != "double"@.len());
            }
            assert("interval_year"@ != "string"@) by {
                assert("interval_year"@.len() != "string"@.len());
            }
            assert("interval_year"@ != "binary"@) by {
                assert("interval_year"@.len() != "binary"@.len());
            }
            assert("interval_year"@ != "timestamp"@) by {
                assert("interval_year"@.len() != "timestamp"@.len());
            }
            assert("interval_year"@ != "timestamp_tz"@) by {
                assert("interval_year"@.len() != "timestamp_tz"@.len());
            }
            assert("interval_year"@ != "date"@) by {
                assert("interval_year"@.len() != "date"@.len());
            }
            assert("interval_year"@ != "time"@) by {
                assert("interval_year"@.len() != "time"@.len());
            }
        },
        BasicKind::IntervalDay => {
            reveal_strlit("bigint");
            reveal_strlit("binary");
            reveal_strlit("bool");
            reveal_strlit("boolean");
            reveal_strlit("date");
            reveal_strlit("double");
            reveal_strlit("float");
            reveal_strlit("fp32");
            reveal_strlit("fp64");
            reveal_strlit("i16");
            reveal_strlit("i32");
            reveal_strlit("i64");
            reveal_strlit("i8");
            reveal_strlit("int");
            reveal_strlit("int16");
            reveal_strlit("int32");
            reveal_strlit("int64");
            reveal_strlit("int8");
            reveal_strlit("interval_day");
            reveal_strlit("interval_year");
            reveal_strlit("interval_year_month");
            reveal_strlit("interval_year_to_month");
            reveal_strlit("smallint");
            reveal_strlit("string");
            reveal_strlit("time");
            reveal_strlit("timestamp");
            reveal_strlit("timestamp_tz");
            reveal_strlit("tinyint");
            assert("interval_day"@ != "boolean"@) by {
                assert("interval_day"@.len() != "boolean"@.len());
            }
            assert("interval_day"@ != "bool"@) by {
                assert("interval_day"@.len() != "bool"@.len());
            }
            assert("interval_day"@ != "i8"@) by {
                assert("interval_day"@.len() != "i8"@.len());
            }
            assert("interval_day"@ != "int8"@) by {
                assert("interval_day"@.len() != "int8"@.len());
            }
            assert("interval_day"@ != "tinyint"@) by {
                assert("interval_day"@.len() != "tinyint"@.len());
            }
            assert("interval_day"@ != "i16"@) by {
                assert("interval_day"@.len() != "i16"@.len());
            }
            assert("interval_day"@ != "int16"@) by {
                assert("interval_day"@.len() != "int16"@.len());
            }
            assert("interval_day"@ != "smallint"@) by {
                assert("interval_day"@.len() != "smallint"@.len());
            }
            assert("interval_day"@ != "i32"@) by {
                assert("interval_day"@.len() != "i32"@.len());
            }
            assert("interval_day"@ != "int32"@) by {
                assert("interval_day"@.len() != "int32"@.len());
            }
            assert("interval_day"@ != "int"@) by {
                assert("interval_day"@.len() != "int"@.len());
            }
            assert("interval_day"@ != "i64"@) by {
                assert("interval_day"@.len() != "i64"@.len());
            }
            assert("interval_day"@ != "int64"@) by {
                assert("interval_day"@.len() != "int64"@.len());
            }
            assert("interval_day"@ != "bigint"@) by {
                assert("interval_day"@.len() != "bigint"@.len());
            }
            assert("interval_day"@ != "fp32"@) by {
                assert("interval_day"@.len() != "fp32"@.len());
            }
            assert("interval_day"@ != "float"@) by {
                assert("interval_day"@.len() != "float"@.len());
            }
            assert("interval_day"@ != "fp64"@) by {
                assert("interval_day"@.len() != "fp64"@.len());
            }
            assert("interval_day"@ != "double"@) by {
                assert("interval_day"@.len() != "double"@.len());
            }
            assert("interval_day"@ != "string"@) by {
                assert("interval_day"@.len() != "string"@.len());
            }
            assert("interval_day"@ != "binary"@) by {
                assert("interval_day"@.len() != "binary"@.len());
            }
            assert("interval_day"@ != "timestamp"@) by {
                assert("interval_day"@.len() != "timestamp"@.len());
            }
            assert("interval_day"@ != "timestamp_tz"@) by {
                assert("interval_day"@[0] != "timestamp_tz"@[0]);
            }
            assert("interval_day"@ != "date"@) by {
                assert("interval_day"@.len() != "date"@.len());
            }
            assert("interval_day"@ != "time"@) by {
                assert("interval_day"@.len() != "time"@.len());
            }
            assert("interval_day"@ != "interval_year"@) by {
                assert("interval_day"@.len() != "interval_year"@.len());
            }
            assert("interval_day"@ != "interval_year_to_month"@) by {
                assert("interval_day"@.len() != "interval_year_to_month"@.len());
            }
            assert("interval_day"@ != "interval_year_month"@) by {
                assert("interval_day"@.len() != "interval_year_month"@.len());
            }
        },
        BasicKind::TimestampTz => {
            reveal_strlit("bigint");
            reveal_strlit("binary");
            reveal_strlit("bool");
            reveal_strlit("boolean");
            reveal_strlit("double");
            reveal_strlit("float");
            reveal_strlit("fp32");
            reveal_strlit("fp64");
            reveal_strlit("i16");
            reveal_strlit("i32");
            reveal_strlit("i64");
            reveal_strlit("i8");
            reveal_strlit("int");
            reveal_strlit("int16");
            reveal_strlit("int32");
            reveal_strlit("int64");
            reveal_strlit("int8");
            reveal_strlit("smallint");
            reveal_strlit("string");
            reveal_strlit("timestamp");
            reveal_strlit("timestamp_tz");
            reveal_strlit("tinyint");
            assert("timestamp_tz"@ != "boolean"@) by {
                assert("timestamp_tz"@.len() != "boolean"@.len());
            }
            assert("timestamp_tz"@ != "bool"@) by {
                assert("timestamp_tz"@.len() != "bool"@.len());
            }
            assert("timestamp_tz"@ != "i8"@) by {
                assert("timestamp_tz"@.len() != "i8"@.len());
            }
            assert("timestamp_tz"@ != "int8"@) by {
                assert("timestamp_tz"@.len() != "int8"@.len());
            }
            assert("timestamp_tz"@ != "tinyint"@) by {
                assert("timestamp_tz"@.len() != "tinyint"@.len());
            }
            assert("timestamp_tz"@ != "i16"@) by {
                assert("timestamp_tz"@.len() != "i16"@.len());
            }
            assert("timestamp_tz"@ != "int16"@) by {
                assert("timestamp_tz"@.len() != "int16"@.len());
            }
            assert("timestamp_tz"@ != "smallint"@) by {
                assert("timestamp_tz"@.len() != "smallint"@.len());
            }
            assert("timestamp_tz"@ != "i32"@) by {
                assert("timestamp_tz"@.len() != "i32"@.len());
            }
            assert("timestamp_tz"@ != "int32"@) by {
                assert("timestamp_tz"@.len() != "int32"@.len());
            }
            assert("timestamp_tz"@ != "int"@) by {
                assert("timestamp_tz"@.len() != "int"@.len());
            }
            assert("timestamp_tz"@ != "i64"@) by {
                assert("timestamp_tz"@.len() != "i64"@.len());
            }
            assert("timestamp_tz"@ != "int64"@) by {
                assert("timestamp_tz"@.len() != "int64"@.len());
            }
            assert("timestamp_tz"@ != "bigint"@) by {
                assert("timestamp_tz"@.len() != "bigint"@.len());
            }
            assert("timestamp_tz"@ != "fp32"@) by {
                assert("timestamp_tz"@.len() != "fp32"@.len());
            }
            assert("timestamp_tz"@ != "float"@) by {
                assert("timestamp_tz"@.len() != "float"@.len());
            }
            assert("timestamp_tz"@ != "fp64"@) by {
                assert("timestamp_tz"@.len() != "fp64"@.len());
            }
            assert("timestamp_tz"@ != "double"@) by {
                assert("timestamp_tz"@.len() != "double"@.len());
            }
            assert("timestamp_tz"@ != "string"@) by {
                assert("timestamp_tz"@.len() != "string"@.len());
            }
            assert("timestamp_tz"@ != "binary"@) by {
                assert("timestamp_tz"@.len() != "binary"@.len());
            }
            assert("timestamp_tz"@ != "timestamp"@) by {
                assert("timestamp_tz"@.len() != "timestamp"@.len());
            }
        },
        BasicKind::Uuid => {
            reveal_strlit("bigint");
            reveal_strlit("binary");
            reveal_strlit("bool");
            reveal_strlit("boolean");
            reveal_strlit("date");
            reveal_strlit("double");
            reveal_strlit("float");
            reveal_strlit("fp32");
            reveal_strlit("fp64");
            reveal_strlit("i16");
            reveal_strlit("i32");
            reveal_strlit("i64");
            reveal_strlit("i8");
            reveal_strlit("int");
            reveal_strlit("int16");
            reveal_strlit("int32");
            reveal_strlit("int64");
            reveal_strlit("int8");
            reveal_strlit("interval_day");
            reveal_strlit("interval_day_second");
            reveal_strlit("interval_day_to_second");
            reveal_strlit("interval_year");
            reveal_strlit("interval_year_month");
            reveal_strlit("interval_year_to_month");
            reveal_strlit("smallint");
            reveal_strlit("string");
            reveal_strlit("time");
            reveal_strlit("timestamp");
            reveal_strlit("timestamp_tz");
            reveal_strlit("tinyint");
            reveal_strlit("uuid");
            assert("uuid"@ != "boolean"@) by {
                assert("uuid"@.len() != "boolean"@.len());
            }
            assert("uuid"@ != "bool"@) by {
                assert("uuid"@[0] != "bool"@[0]);
            }
            assert("uuid"@ != "i8"@) by {
                assert("uuid"@.len() != "i8"@.len());
            }
            assert("uuid"@ != "int8"@) by {
                assert("uuid"@[0] != "int8"@[0]);
            }
            assert("uuid"@ != "tinyint"@) by {
                assert("uuid"@.len() != "tinyint"@.len());
            }
            assert("uuid"@ != "i16"@) by {
                assert("uuid"@.len() != "i16"@.len());
            }
            assert("uuid"@ != "int16"@) by {
                assert("uuid"@.len() != "int16"@.len());
            }
            assert("uuid"@ != "smallint"@) by {
                assert("uuid"@.len() != "smallint"@.len());
            }
            assert("uuid"@ != "i32"@) by {
                assert("uuid"@.len() != "i32"@.len());
            }
            assert("uuid"@ != "int32"@) by {
                assert("uuid"@.len() != "int32"@.len());
            }
            assert("uuid"@ != "int"@) by {
                assert("uuid"@.len() != "int"@.len());
            }
            assert("uuid"@ != "i64"@) by {
                assert("uuid"@.len() != "i64"@.len());
            }
            assert("uuid"@ != "int64"@) by {
                assert("uuid"@.len() != "int64"@.len());
            }
            assert("uuid"@ != "bigint"@) by {
                assert("uuid"@.len() != "bigint"@.len());
            }
            assert("uuid"@ != "fp32"@) by {
                assert("uuid"@[0] != "fp32"@[0]);
            }
            assert("uuid"@ != "float"@) by {
                assert("uuid"@.len() != "float"@.len());
            }
            assert("uuid"@ != "fp64"@) by {
                assert("uuid"@[0] != "fp64"@[0]);
            }
            assert("uuid"@ != "double"@) by {
                assert("uuid"@.len() != "double"@.len());
            }
            assert("uuid"@ != "string"@) by {
                assert("uuid"@.len() != "string"@.len());
            }
            assert("uuid"@ != "binary"@) by {
                assert("uuid"@.len() != "binary"@.len());
            }
            assert("uuid"@ != "timestamp"@) by {
                assert("uuid"@.len() != "timestamp"@.len());
            }
            assert("uuid"@ != "timestamp_tz"@) by {
                assert("uuid"@.len() != "timestamp_tz"@.len());
            }
            assert("uuid"@ != "date"@) by {
                assert("uuid"@[0] != "date"@[0]);
            }
            assert("uuid"@ != "time"@) by {
                assert("uuid"@[0] != "time"@[0]);
            }
            assert("uuid"@ != "interval_year"@) by {
                assert("uuid"@.len() != "interval_year"@.len());
            }
            assert("uuid"@ != "interval_year_to_month"@) by {
                assert("uuid"@.len() != "interval_year_to_month"@.len());
            }
            assert("uuid"@ != "interval_year_month"@) by {
                assert("uuid"@.len() != "interval_year_month"@.len());
            }
            assert("uuid"@ != "interval_day"@) by {
                assert("uuid"@.len() != "interval_day"@.len());
            }
            assert("uuid"@ != "interval_day_to_second"@) by {
                assert("uuid"@.len() != "interval_day_to_second"@.len());
            }
            assert("uuid"@ != "interval_day_second"@) by {
                assert("uuid"@.len() != "interval_day_second"@.len());
            }
        },
    }
}

proof fn lemma_basic_roundtrip(k: BasicKind, n: i32)
    requires
        n == 1 || n == 2,
    ensures
        parse_type_spec(basic_kind_name(k) + nullable_mark(n)) == (
            TypeView { kind: Some(KindView::Basic(k, n)) },
            Seq::<Seq<char>>::empty(),
        ),
{
    reveal_strlit("bool");
    reveal_strlit("boolean");
    reveal_strlit("i8");
    reveal_strlit("int8");
    reveal_strlit("tinyint");
    reveal_strlit("i16");
    reveal_strlit("int16");
    reveal_strlit("smallint");
    reveal_strlit("i32");
    reveal_strlit("int32");
    reveal_strlit("int");
    reveal_strlit("i64");
    reveal_strlit("int64");
    reveal_strlit("bigint");
    reveal_strlit("fp32");
    reveal_strlit("float");
    reveal_strlit("fp64");
    reveal_strlit("double");
    reveal_strlit("string");
    reveal_strlit("binary");
    reveal_strlit("timestamp");
    reveal_strlit("timestamp_tz");
    reveal_strlit("date");
    reveal_strlit("time");
    reveal_strlit("interval_year");
    reveal_strlit("interval_year_to_month");
    reveal_strlit("interval_year_month");
    reveal_strlit("interval_day");
    reveal_strlit("interval_day_to_second");
    reveal_strlit("interval_day_second");
    reveal_strlit("uuid");
    let name = basic_kind_name(k);
    assert(name.len() > 0);
    assert forall|i: int| 0 <= i < name.len() implies #[trigger] name[i] != '<' && name[i] != '?'
        && name[i] != '>' by {}
    lemma_basic_kind_named(k);
    lemma_basic_spelling_reads(name, k, n);
}

/// A name without `<`, `?` or `>` that names a parameterless type, followed by the
/// nullability mark, reads as that type with that nullability and no error message.
proof fn lemma_basic_spelling_reads(name: Seq<char>, k: BasicKind, n: i32)
    requires
        n == 1 || n == 2,
        name.len() > 0,
        forall|i: int| 0 <= i < name.len() ==> #[trigger] name[i] != '<' && name[i] != '?'
            && name[i] != '>',
        basic_kind_named(name) == Some(k),
    ensures
        parse_type_spec(name + nullable_mark(n)) == (
            TypeView { kind: Some(KindView::Basic(k, n)) },
            Seq::<Seq<char>>::empty(),
        ),
{
    let t = name + nullable_mark(n);
    assert forall|i: int| 0 <= i < t.len() implies #[trigger] t[i] != '<' by {
        if i < name.len() {
            assert(t[i] == name[i]);
        }
    }
    lemma_no_char(t, '<');
    if n == 1 {
        assert forall|i: int| 0 <= i < t.len() - 1 implies #[trigger] t[i] != '?' by {
            assert(t[i] == name[i]);
        }
        lemma_find_char(t, '?', t.len() - 1);
        assert(nullable_flag(t));
        assert(t.take(name.len() as int) =~= name);
    } else {
        assert(t =~= name);
        lemma_no_char(t, '?');
        assert(!nullable_flag(t));
    }
    assert(base_type_text(t) == name);
    assert(nullability_code(t) == n);
    reveal_strlit("list<");
    reveal_strlit("struct<");
    reveal_strlit("map<");
    reveal_strlit("decimal<");
    reveal_strlit("fixedchar<");
    reveal_strlit("varchar<");
    reveal_strlit("fixedbinary<");
    lemma_no_lt_prefix(name, "list<"@);
    lemma_no_lt_prefix(name, "struct<"@);
    lemma_no_lt_prefix(name, "map<"@);
    lemma_no_lt_prefix(name, "decimal<"@);
    lemma_no_lt_prefix(name, "fixedchar<"@);
    lemma_no_lt_prefix(name, "varchar<"@);
    lemma_no_lt_prefix(name, "fixedbinary<"@);
}

proof fn lemma_parameter_roundtrip(name: Seq<char>, n: i32, params: Seq<char>)
    requires
        n == 1 || n == 2,
        name.len() > 0,
        forall|i: int| 0 <= i < name.len() ==> #[trigger] name[i] != '<' && name[i] != '?',
        forall|i: int| 0 <= i < params.len() ==> #[trigger] params[i] != '?',
    ensures
        ({
            let t = name + nullable_mark(n) + seq!['<'] + params + seq!['>'];
            &&& nullability_code(t) == n
            &&& base_type_text(t) == name + seq!['<'] + params + seq!['>']
        }),
{
    let t = name + nullable_mark(n) + seq!['<'] + params + seq!['>'];
    let a: int = (name.len() + nullable_mark(n).len()) as int;
    assert forall|i: int| 0 <= i < a implies #[trigger] t[i] != '<' by {
        if i < name.len() {
            assert(t[i] == name[i]);
        }
    }
    assert(t[a] == '<');
    lemma_find_char(t, '<', a);
    if n == 1 {
        assert forall|i: int| 0 <= i < name.len() implies #[trigger] t[i] != '?' by {
            assert(t[i] == name[i]);
        }
        lemma_find_char(t, '?', name.len() as int);
        assert(nullable_flag(t));
        assert(t.take(name.len() as int) + t.skip(a) =~= name + seq!['<'] + params + seq!['>']);
    } else {
        assert forall|i: int| 0 <= i < t.len() implies #[trigger] t[i] != '?' by {
            if i < name.len() {
                assert(t[i] == name[i]);
            } else if i > a && i < t.len() - 1 {
                assert(t[i] == params[i - a - 1]);
            }
        }
        lemma_no_char(t, '?');
        assert(!nullable_flag(t));
        assert(t =~= name + seq!['<'] + params + seq!['>']);
    }
}

#[verifier::rlimit(60)]
proof fn lemma_length_roundtrip(k: KindView)
    requires
        is_fully_printed(TypeView { kind: Some(k) }),
        k is FixedChar || k is Varchar || k is FixedBinary,
    ensures
        parse_type_spec(type_text_spec(TypeView { kind: Some(k) }).unwrap()) == (
            TypeView { kind: Some(k) },
            Seq::<Seq<char>>::empty(),
        ),
{
    reveal_strlit("fixedchar");
    reveal_strlit("varchar");
    reveal_strlit("fixedbinary");
    reveal_strlit("list<");
    reveal_strlit("struct<");
    reveal_strlit("map<");
    reveal_strlit("decimal<");
    reveal_strlit("fixedchar<");
    reveal_strlit("varchar<");
    reveal_strlit("fixedbinary<");
    let (name, len, n) = match k {
        KindView::FixedChar(len, n) => ("fixedchar"@, len, n),
        KindView::Varchar(len, n) => ("varchar"@, len, n),
        KindView::FixedBinary(len, n) => ("fixedbinary"@, len, n),
        _ => (Seq::empty(), 0, 0),
    };
    let d = signed_decimal(len as int);
    lemma_signed_decimal(len);
    assert forall|i: int| 0 <= i < d.len() implies #[trigger] d[i] != '?' by {
        assert(is_digit(d[i]) || d[i] == '-');
    }
    lemma_parameter_roundtrip(name, n, d);
    let t = name + nullable_mark(n) + seq!['<'] + d + seq!['>'];
    assert(type_text_spec(TypeView { kind: Some(k) }).unwrap() == t);
    let b = name + seq!['<'] + d + seq!['>'];
    assert(b.len() <= t.len());
    let prefix = name + seq!['<'];
    assert(b.skip(prefix.len() as int).last() == '>');
    assert(b.skip(prefix.len() as int).skip(b.skip(prefix.len() as int).len() - 1) =~= seq!['>']);
    assert(b.subrange(prefix.len() as int, b.len() - 1) =~= d);
    assert(b.take(prefix.len() as int) =~= prefix);
    assert(!has_prefix(b, "list<"@)) by {
        assert(b[0] != "list<"@[0]);
    }
    assert(!has_prefix(b, "struct<"@)) by {
        assert(b[0] != "struct<"@[0]);
    }
    assert(!has_prefix(b, "map<"@)) by {
        assert(b[0] != "map<"@[0]);
    }
    assert(!has_prefix(b, "decimal<"@)) by {
        assert(b[0] != "decimal<"@[0]);
    }
    if k is FixedChar {
        assert(prefix =~= "fixedchar<"@);
        assert(wrapped_content(b, "fixedchar<"@) == Some(d));
    } else if k is Varchar {
        assert(prefix =~= "varchar<"@);
        assert(!has_prefix(b, "fixedchar<"@)) by {
            assert(b[0] != "fixedchar<"@[0]);
        }
        assert(wrapped_content(b, "varchar<"@) == Some(d));
    } else {
        assert(prefix =~= "fixedbinary<"@);
        assert(!has_prefix(b, "fixedchar<"@)) by {
            assert(b[5] != "fixedchar<"@[5]);
        }
        assert(!has_prefix(b, "varchar<"@)) by {
            assert(b[0] != "varchar<"@[0]);
        }
        assert(wrapped_content(b, "fixedbinary<"@) == Some(d));
    }
}

#[verifier::rlimit(60)]
#[verifier::spinoff_prover]
proof fn lemma_decimal_roundtrip(p: i32, s: i32, n: i32)
    requires
        n == 1 || n == 2,
    ensures
        parse_type_spec(type_text_spec(TypeView { kind: Some(KindView::Decimal(p, s, n)) }).unwrap())
            == (TypeView { kind: Some(KindView::Decimal(p, s, n)) }, Seq::<Seq<char>>::empty()),
{
    reveal_strlit("decimal");
    reveal_strlit("list<");
    reveal_strlit("struct<");
    reveal_strlit("map<");
    reveal_strlit("decimal<");
    let dp = signed_decimal(p as int);
    let ds = signed_decimal(s as int);
    lemma_signed_decimal(p);
    lemma_signed_decimal(s);
    let params = dp + seq![','] + ds;
    assert forall|i: int| 0 <= i < params.len() implies #[trigger] params[i] != '?' by {
        if i < dp.len() {
            assert(params[i] == dp[i]);
            assert(is_digit(dp[i]) || dp[i] == '-');
        } else if i > dp.len() {
            assert(params[i] == ds[i - dp.len() - 1]);
            assert(is_digit(ds[i - dp.len() - 1]) || ds[i - dp.len() - 1] == '-');
        }
    }
    lemma_parameter_roundtrip("decimal"@, n, params);
    let t = "decimal"@ + nullable_mark(n) + seq!['<'] + params + seq!['>'];
    assert(type_text_spec(TypeView { kind: Some(KindView::Decimal(p, s, n)) }).unwrap() =~= t);
    let b = "decimal"@ + seq!['<'] + params + seq!['>'];
    let prefix = "decimal"@ + seq!['<'];
    assert(prefix =~= "decimal<"@);
    assert(b.take(prefix.len() as int) =~= prefix);
    assert(b.skip(prefix.len() as int).skip(b.skip(prefix.len() as int).len() - 1) =~= seq!['>']);
    assert(b.subrange(prefix.len() as int, b.len() - 1) =~= params);
    assert(!has_prefix(b, "list<"@)) by {
        assert(b[0] != "list<"@[0]);
    }
    assert(!has_prefix(b, "struct<"@)) by {
        assert(b[0] != "struct<"@[0]);
    }
    assert(!has_prefix(b, "map<"@)) by {
        assert(b[0] != "map<"@[0]);
    }
    assert(wrapped_content(b, "decimal<"@) == Some(params));
    assert forall|i: int| 0 <= i < dp.len() implies #[trigger] params[i] != ',' by {
        assert(params[i] == dp[i]);
        assert(is_digit(dp[i]) || dp[i] == '-');
    }
    lemma_find_char(params, ',', dp.len() as int);
    assert(params.take(dp.len() as int) =~= dp);
    assert(params.skip(dp.len() + 1int) =~= ds);
}

/// Printing a type and reading its text back gives the same type and no error message, for
/// every type that the printer spells out in full (the parameterless types, the types with a
/// length, and decimals) when its nullability is nullable or required.
pub proof fn lemma_parse_type_inverts_print_type(t: TypeView)
    requires
        is_fully_printed(t),
    ensures
        parse_type_spec(type_text_spec(t).unwrap()) == (t, Seq::<Seq<char>>::empty()),
{
    match t.kind {
        Some(KindView::Basic(k, n)) => {
            lemma_basic_roundtrip(k, n);
        },
        Some(KindView::Decimal(p, s, n)) => {
            lemma_decimal_roundtrip(p, s, n);
        },
        Some(k) => {
            lemma_length_roundtrip(k);
        },
        None => {},
    }
}

/// Another spelling of a parameterless type reads as that type with the nullability asked
/// for, as its own name does.
proof fn lemma_alias_reads_as_name(alias: Seq<char>, k: BasicKind, n: i32)
    requires
        n == 1 || n == 2,
        alias.len() > 0,
        forall|i: int| 0 <= i < alias.len() ==> #[trigger] alias[i] != '<' && alias[i] != '?'
            && alias[i] != '>',
        basic_kind_named(alias) == Some(k),
    ensures
        parse_type_spec(alias + nullable_mark(n)) == parse_type_spec(
            basic_kind_name(k) + nullable_mark(n),
        ),
        parse_type_spec(alias + nullable_mark(n)) == (
            TypeView { kind: Some(KindView::Basic(k, n)) },
            Seq::<Seq<char>>::empty(),
        ),
{
    lemma_basic_spelling_reads(alias, k, n);
    lemma_basic_roundtrip(k, n);
}

proof fn lemma_alias_boolean(n: i32)
    requires
        n == 1 || n == 2,
    ensures
        parse_type_spec("boolean"@ + nullable_mark(n)) == parse_type_spec("bool"@ + nullable_mark(n)),
{
    reveal_strlit("boolean");
    assert(basic_kind_named("boolean"@) == Some(BasicKind::Bool));
    lemma_alias_reads_as_name("boolean"@, BasicKind::Bool, n);
}

proof fn lemma_alias_int8(n: i32)
    requires
        n == 1 || n == 2,
    ensures
        parse_type_spec("int8"@ + nullable_mark(n)) == parse_type_spec("i8"@ + nullable_mark(n)),
{
    reveal_strlit("int8");
    reveal_strlit("boolean");
    assert("int8"@ != "boolean"@) by {
        assert("int8"@.len() != "boolean"@.len());
    }
    reveal_strlit("bool");
    assert("int8"@ != "bool"@) by {
        assert("int8"@[0] != "bool"@[0]);
    }
    reveal_strlit("i8");
    assert("int8"@ != "i8"@) by {
        assert("int8"@.len() != "i8"@.len());
    }
    assert(basic_kind_named("int8"@) == Some(BasicKind::I8));
    lemma_alias_reads_as_name("int8"@, BasicKind::I8, n);
}

proof fn lemma_alias_tinyint(n: i32)
    requires
        n == 1 || n == 2,
    ensures
        parse_type_spec("tinyint"@ + nullable_mark(n)) == parse_type_spec("i8"@ + nullable_mark(n)),
{
    reveal_strlit("tinyint");
    reveal_strlit("boolean");
    assert("tinyint"@ != "boolean"@) by {
        assert("tinyint"@[0] != "boolean"@[0]);
    }
    reveal_strlit("bool");
    assert("tinyint"@ != "bool"@) by {
        assert("tinyint"@.len() != "bool"@.len());
    }
    reveal_strlit("i8");
    assert("tinyint"@ != "i8"@) by {
        assert("tinyint"@.len() != "i8"@.len());
    }
    reveal_strlit("int8");
    assert("tinyint"@ != "int8"@) by {
        assert("tinyint"@.len() != "int8"@.len());
    }
    assert(basic_kind_named("tinyint"@) == Some(BasicKind::I8));
    lemma_alias_reads_as_name("tinyint"@, BasicKind::I8, n);
}

proof fn lemma_alias_int16(n: i32)
    requires
        n == 1 || n == 2,
    ensures
        parse_type_spec("int16"@ + nullable_mark(n)) == parse_type_spec("i16"@ + nullable_mark(n)),
{
    reveal_strlit("int16");
    reveal_strlit("boolean");
    assert("int16"@ != "boolean"@) by {
        assert("int16"@.len() != "boolean"@.len());
    }
    reveal_strlit("bool");
    assert("int16"@ != "bool"@) by {
        assert("int16"@.len() != "bool"@.len());
    }
    reveal_strlit("i8");
    assert("int16"@ != "i8"@) by {
        assert("int16"@.len() != "i8"@.len());
    }
    reveal_strlit("int8");
    assert("int16"@ != "int8"@) by {
        assert("int16"@.len() != "int8"@.len());
    }
    reveal_strlit("tinyint");
    assert("int16"@ != "tinyint"@) by {
        assert("int16"@.len() != "tinyint"@.len());
    }
    reveal_strlit("i16");
    assert("int16"@ != "i16"@) by {
        assert("int16"@.len() != "i16"@.len());
    }
    assert(basic_kind_named("int16"@) == Some(BasicKind::I16));
    lemma_alias_reads_as_name("int16"@, BasicKind::I16, n);
}

proof fn lemma_alias_smallint(n: i32)
    requires
        n == 1 || n == 2,
    ensures
        parse_type_spec("smallint"@ + nullable_mark(n)) == parse_type_spec("i16"@ + nullable_mark(n)),
{
    reveal_strlit("smallint");
    reveal_strlit("boolean");
    assert("smallint"@ != "boolean"@) by {
        assert("smallint"@.len() != "boolean"@.len());
    }
    reveal_strlit("bool");
    assert("smallint"@ != "bool"@) by {
        assert("smallint"@.len() != "bool"@.len());
    }
    reveal_strlit("i8");
    assert("smallint"@ != "i8"@) by {
        assert("smallint"@.len() != "i8"@.len());
    }
    reveal_strlit("int8");
    assert("smallint"@ != "int8"@) by {
        assert("smallint"@.len() != "int8"@.len());
    }
    reveal_strlit("tinyint");
    assert("smallint"@ != "tinyint"@) by {
        assert("smallint"@.len() != "tinyint"@.len());
    }
    reveal_strlit("i16");
    assert("smallint"@ != "i16"@) by {
        assert("smallint"@.len() != "i16"@.len());
    }
    reveal_strlit("int16");
    assert("smallint"@ != "int16"@) by {
        assert("smallint"@.len() != "int16"@.len());
    }
    assert(basic_kind_named("smallint"@) == Some(BasicKind::I16));
    lemma_alias_reads_as_name("smallint"@, BasicKind::I16, n);
}

proof fn lemma_alias_int32(n: i32)
    requires
        n == 1 || n == 2,
    ensures
        parse_type_spec("int32"@ + nullable_mark(n)) == parse_type_spec("i32"@ + nullable_mark(n)),
{
    reveal_strlit("int32");
    reveal_strlit("boolean");
    assert("int32"@ != "boolean"@) by {
        assert("int32"@.len() != "boolean"@.len());
    }
    reveal_strlit("bool");
    assert("int32"@ != "bool"@) by {
        assert("int32"@.len() != "bool"@.len());
    }
    reveal_strlit("i8");
    assert("int32"@ != "i8"@) by {
        assert("int32"@.len() != "i8"@.len());
    }
    reveal_strlit("int8");
    assert("int32"@ != "int8"@) by {
        assert("int32"@.len() != "int8"@.len());
    }
    reveal_strlit("tinyint");
    assert("int32"@ != "tinyint"@) by {
        assert("int32"@.len() != "tinyint"@.len());
    }
    reveal_strlit("i16");
    assert("int32"@ != "i16"@) by {
        assert("int32"@.len() != "i16"@.len());
    }
    reveal_strlit("int16");
    assert("int32"@ != "int16"@) by {
        assert("int32"@[3] != "int16"@[3]);
    }
    reveal_strlit("smallint");
    assert("int32"@ != "smallint"@) by {
        assert("int32"@.len() != "smallint"@.len());
    }
    reveal_strlit("i32");
    assert("int32"@ != "i32"@) by {
        assert("int32"@.len() != "i32"@.len());
    }
    assert(basic_kind_named("int32"@) == Some(BasicKind::I32));
    lemma_alias_reads_as_name("int32"@, BasicKind::I32, n);
}

proof fn lemma_alias_int(n: i32)
    requires
        n == 1 || n == 2,
    ensures
        parse_type_spec("int"@ + nullable_mark(n)) == parse_type_spec("i32"@ + nullable_mark(n)),
{
    reveal_strlit("int");
    reveal_strlit("boolean");
    assert("int"@ != "boolean"@) by {
        assert("int"@.len() != "boolean"@.len());
    }
    reveal_strlit("bool");
    assert("int"@ != "bool"@) by {
        assert("int"@.len() != "bool"@.len());
    }
    reveal_strlit("i8");
    assert("int"@ != "i8"@) by {
        assert("int"@.len() != "i8"@.len());
    }
    reveal_strlit("int8");
    assert("int"@ != "int8"@) by {
        assert("int"@.len() != "int8"@.len());
    }
    reveal_strlit("tinyint");
    assert("int"@ != "tinyint"@) by {
        assert("int"@.len() != "tinyint"@.len());
    }
    reveal_strlit("i16");
    assert("int"@ != "i16"@) by {
        assert("int"@[1] != "i16"@[1]);
    }
    reveal_strlit("int16");
    assert("int"@ != "int16"@) by {
        assert("int"@.len() != "int16"@.len());
    }
    reveal_strlit("smallint");
    assert("int"@ != "smallint"@) by {
        assert("int"@.len() != "smallint"@.len());
    }
    reveal_strlit("i32");
    assert("int"@ != "i32"@) by {
        assert("int"@[1] != "i32"@[1]);
    }
    reveal_strlit("int32");
    assert("int"@ != "int32"@) by {
        assert("int"@.len() != "int32"@.len());
    }
    assert(basic_kind_named("int"@) == Some(BasicKind::I32));
    lemma_alias_reads_as_name("int"@, BasicKind::I32, n);
}

proof fn lemma_alias_int64(n: i32)
    requires
        n == 1 || n == 2,
    ensures
        parse_type_spec("int64"@ + nullable_mark(n)) == parse_type_spec("i64"@ + nullable_mark(n)),
{
    reveal_strlit("int64");
    reveal_strlit("boolean");
    assert("int64"@ != "boolean"@) by {
        assert("int64"@.len() != "boolean"@.len());
    }
    reveal_strlit("bool");
    assert("int64"@ != "bool"@) by {
        assert("int64"@.len() != "bool"@.len());
    }
    reveal_strlit("i8");
    assert("int64"@ != "i8"@) by {
        assert("int64"@.len() != "i8"@.len());
    }
    reveal_strlit("int8");
    assert("int64"@ != "int8"@) by {
        assert("int64"@.len() != "int8"@.len());
    }
    reveal_strlit("tinyint");
    assert("int64"@ != "tinyint"@) by {
        assert("int64"@.len() != "tinyint"@.len());
    }
    reveal_strlit("i16");
    assert("int64"@ != "i16"@) by {
        assert("int64"@.len() != "i16"@.len());
    }
    reveal_strlit("int16");
    assert("int64"@ != "int16"@) by {
        assert("int64"@[3] != "int16"@[3]);
    }
    reveal_strlit("smallint");
    assert("int64"@ != "smallint"@) by {
        assert("int64"@.len() != "smallint"@.len());
    }
    reveal_strlit("i32");
    assert("int64"@ != "i32"@) by {
        assert("int64"@.len() != "i32"@.len());
    }
    reveal_strlit("int32");
    assert("int64"@ != "int32"@) by {
        assert("int64"@[3] != "int32"@[3]);
    }
    reveal_strlit("int");
    assert("int64"@ != "int"@) by {
        assert("int64"@.len() != "int"@.len());
    }
    reveal_strlit("i64");
    assert("int64"@ != "i64"@) by {
        assert("int64"@.len() != "i64"@.len());
    }
    assert(basic_kind_named("int64"@) == Some(BasicKind::I64));
    lemma_alias_reads_as_name("int64"@, BasicKind::I64, n);
}

proof fn lemma_alias_bigint(n: i32)
    requires
        n == 1 || n == 2,
    ensures
        parse_type_spec("bigint"@ + nullable_mark(n)) == parse_type_spec("i64"@ + nullable_mark(n)),
{
    reveal_strlit("bigint");
    reveal_strlit("boolean");
    assert("bigint"@ != "boolean"@) by {
        assert("bigint"@.len() != "boolean"@.len());
    }
    reveal_strlit("bool");
    assert("bigint"@ != "bool"@) by {
        assert("bigint"@.len() != "bool"@.len());
    }
    reveal_strlit("i8");
    assert("bigint"@ != "i8"@) by {
        assert("bigint"@.len() != "i8"@.len());
    }
    reveal_strlit("int8");
    assert("bigint"@ != "int8"@) by {
        assert("bigint"@.len() != "int8"@.len());
    }
    reveal_strlit("tinyint");
    assert("bigint"@ != "tinyint"@) by {
        assert("bigint"@.len() != "tinyint"@.len());
    }
    reveal_strlit("i16");
    assert("bigint"@ != "i16"@) by {
        assert("bigint"@.len() != "i16"@.len());
    }
    reveal_strlit("int16");
    assert("bigint"@ != "int16"@) by {
        assert("bigint"@.len() != "int16"@.len());
    }
    reveal_strlit("smallint");
    assert("bigint"@ != "smallint"@) by {
        assert("bigint"@.len() != "smallint"@.len());
    }
    reveal_strlit("i32");
    assert("bigint"@ != "i32"@) by {
        assert("bigint"@.len() != "i32"@.len());
    }
    reveal_strlit("int32");
    assert("bigint"@ != "int32"@) by {
        assert("bigint"@.len() != "int32"@.len());
    }
    reveal_strlit("int");
    assert("bigint"@ != "int"@) by {
        assert("bigint"@.len() != "int"@.len());
    }
    reveal_strlit("i64");
    assert("bigint"@ != "i64"@) by {
        assert("bigint"@.len() != "i64"@.len());
    }
    reveal_strlit("int64");
    assert("bigint"@ != "int64"@) by {
        assert("bigint"@.len() != "int64"@.len());
    }
    assert(basic_kind_named("bigint"@) == Some(BasicKind::I64));
    lemma_alias_reads_as_name("bigint"@, BasicKind::I64, n);
}

proof fn lemma_alias_float(n: i32)
    requires
        n == 1 || n == 2,
    ensures
        parse_type_spec("float"@ + nullable_mark(n)) == parse_type_spec("fp32"@ + nullable_mark(n)),
{
    reveal_strlit("float");
    reveal_strlit("boolean");
    assert("float"@ != "boolean"@) by {
        assert("float"@.len() != "boolean"@.len());
    }
    reveal_strlit("bool");
    assert("float"@ != "bool"@) by {
        assert("float"@.len() != "bool"@.len());
    }
    reveal_strlit("i8");
    assert("float"@ != "i8"@) by {
        assert("float"@.len() != "i8"@.len());
    }
    reveal_strlit("int8");
    assert("float"@ != "int8"@) by {
        assert("float"@.len() != "int8"@.len());
    }
    reveal_strlit("tinyint");
    assert("float"@ != "tinyint"@) by {
        assert("float"@.len() != "tinyint"@.len());
    }
    reveal_strlit("i16");
    assert("float"@ != "i16"@) by {
        assert("float"@.len() != "i16"@.len());
    }
    reveal_strlit("int16");
    assert("float"@ != "int16"@) by {
        assert("float"@[0] != "int16"@[0]);
    }
    reveal_strlit("smallint");
    assert("float"@ != "smallint"@) by {
        assert("float"@.len() != "smallint"@.len());
    }
    reveal_strlit("i32");
    assert("float"@ != "i32"@) by {
        assert("float"@.len() != "i32"@.len());
    }
    reveal_strlit("int32");
    assert("float"@ != "int32"@) by {
        assert("float"@[0] != "int32"@[0]);
    }
    reveal_strlit("int");
    assert("float"@ != "int"@) by {
        assert("float"@.len() != "int"@.len());
    }
    reveal_strlit("i64");
    assert("float"@ != "i64"@) by {
        assert("float"@.len() != "i64"@.len());
    }
    reveal_strlit("int64");
    assert("float"@ != "int64"@) by {
        assert("float"@[0] != "int64"@[0]);
    }
    reveal_strlit("bigint");
    assert("float"@ != "bigint"@) by {
        assert("float"@.len() != "bigint"@.len());
    }
    reveal_strlit("fp32");
    assert("float"@ != "fp32"@) by {
        assert("float"@.len() != "fp32"@.len());
    }
    assert(basic_kind_named("float"@) == Some(BasicKind::Fp32));
    lemma_alias_reads_as_name("float"@, BasicKind::Fp32, n);
}

proof fn lemma_alias_double(n: i32)
    requires
        n == 1 || n == 2,
    ensures
        parse_type_spec("double"@ + nullable_mark(n)) == parse_type_spec("fp64"@ + nullable_mark(n)),
{
    reveal_strlit("double");
    reveal_strlit("boolean");
    assert("double"@ != "boolean"@) by {
        assert("double"@.len() != "boolean"@.len());
    }
    reveal_strlit("bool");
    assert("double"@ != "bool"@) by {
        assert("double"@.len() != "bool"@.len());
    }
    reveal_strlit("i8");
    assert("double"@ != "i8"@) by {
        assert("double"@.len() != "i8"@.len());
    }
    reveal_strlit("int8");
    assert("double"@ != "int8"@) by {
        assert("double"@.len() != "int8"@.len());
    }
    reveal_strlit("tinyint");
    assert("double"@ != "tinyint"@) by {
        assert("double"@.len() != "tinyint"@.len());
    }
    reveal_strlit("i16");
    assert("double"@ != "i16"@) by {
        assert("double"@.len() != "i16"@.len());
    }
    reveal_strlit("int16");
    assert("double"@ != "int16"@) by {
        assert("double"@.len() != "int16"@.len());
    }
    reveal_strlit("smallint");
    assert("double"@ != "smallint"@) by {
        assert("double"@.len() != "smallint"@.len());
    }
    reveal_strlit("i32");
    assert("double"@ != "i32"@) by {
        assert("double"@.len() != "i32"@.len());
    }
    reveal_strlit("int32");
    assert("double"@ != "int32"@) by {
        assert("double"@.len() != "int32"@.len());
    }
    reveal_strlit("int");
    assert("double"@ != "int"@) by {
        assert("double"@.len() != "int"@.len());
    }
    reveal_strlit("i64");
    assert("double"@ != "i64"@) by {
        assert("double"@.len() != "i64"@.len());
    }
    reveal_strlit("int64");
    assert("double"@ != "int64"@) by {
        assert("double"@.len() != "int64"@.len());
    }
    reveal_strlit("bigint");
    assert("double"@ != "bigint"@) by {
        assert("double"@[0] != "bigint"@[0]);
    }
    reveal_strlit("fp32");
    assert("double"@ != "fp32"@) by {
        assert("double"@.len() != "fp32"@.len());
    }
    reveal_strlit("float");
    assert("double"@ != "float"@) by {
        assert("double"@.len() != "float"@.len());
    }
    reveal_strlit("fp64");
    assert("double"@ != "fp64"@) by {
        assert("double"@.len() != "fp64"@.len());
    }
    assert(basic_kind_named("double"@) == Some(BasicKind::Fp64));
    lemma_alias_reads_as_name("double"@, BasicKind::Fp64, n);
}

proof fn lemma_alias_interval_year_to_month(n: i32)
    requires
        n == 1 || n == 2,
    ensures
        parse_type_spec("interval_year_to_month"@ + nullable_mark(n)) == parse_type_spec("interval_year"@ + nullable_mark(n)),
{
    reveal_strlit("interval_year_to_month");
    reveal_strlit("boolean");
    assert("interval_year_to_month"@ != "boolean"@) by {
        assert("interval_year_to_month"@.len() != "boolean"@.len());
    }
    reveal_strlit("bool");
    assert("interval_year_to_month"@ != "bool"@) by {
        assert("interval_year_to_month"@.len() != "bool"@.len());
    }
    reveal_strlit("i8");
    assert("interval_year_to_month"@ != "i8"@) by {
        assert("interval_year_to_month"@.len() != "i8"@.len());
    }
    reveal_strlit("int8");
    assert("interval_year_to_month"@ != "int8"@) by {
        assert("interval_year_to_month"@.len() != "int8"@.len());
    }
    reveal_strlit("tinyint");
    assert("interval_year_to_month"@ != "tinyint"@) by {
        assert("interval_year_to_month"@.len() != "tinyint"@.len());
    }
    reveal_strlit("i16");
    assert("interval_year_to_month"@ != "i16"@) by {
        assert("interval_year_to_month"@.len() != "i16"@.len());
    }
    reveal_strlit("int16");
    assert("interval_year_to_month"@ != "int16"@) by {
        assert("interval_year_to_month"@.len() != "int16"@.len());
    }
    reveal_strlit("smallint");
    assert("interval_year_to_month"@ != "smallint"@) by {
        assert("interval_year_to_month"@.len() != "smallint"@.len());
    }
    reveal_strlit("i32");
    assert("interval_year_to_month"@ != "i32"@) by {
        assert("interval_year_to_month"@.len() != "i32"@.len());
    }
    reveal_strlit("int32");
    assert("interval_year_to_month"@ != "int32"@) by {
        assert("interval_year_to_month"@.len() != "int32"@.len());
    }
    reveal_strlit("int");
    assert("interval_year_to_month"@ != "int"@) by {
        assert("interval_year_to_month"@.len() != "int"@.len());
    }
    reveal_strlit("i64");
    assert("interval_year_to_month"@ != "i64"@) by {
        assert("interval_year_to_month"@.len() != "i64"@.len());
    }
    reveal_strlit("int64");
    assert("interval_year_to_month"@ != "int64"@) by {
        assert("interval_year_to_month"@.len() != "int64"@.len());
    }
    reveal_strlit("bigint");
    assert("interval_year_to_month"@ != "bigint"@) by {
        assert("interval_year_to_month"@.len() != "bigint"@.len());
    }
    reveal_strlit("fp32");
    assert("interval_year_to_month"@ != "fp32"@) by {
        assert("interval_year_to_month"@.len() != "fp32"@.len());
    }
    reveal_strlit("float");
    assert("interval_year_to_month"@ != "float"@) by {
        assert("interval_year_to_month"@.len() != "float"@.len());
    }
    reveal_strlit("fp64");
    assert("interval_year_to_month"@ != "fp64"@) by {
        assert("interval_year_to_month"@.len() != "fp64"@.len());
    }
    reveal_strlit("double");
    assert("interval_year_to_month"@ != "double"@) by {
        assert("interval_year_to_month"@.len() != "double"@.len());
    }
    reveal_strlit("string");
    assert("interval_year_to_month"@ != "string"@) by {
        assert("interval_year_to_month"@.len() != "string"@.len());
    }
    reveal_strlit("binary");
    assert("interval_year_to_month"@ != "binary"@) by {
        assert("interval_year_to_month"@.len() != "binary"@.len());
    }
    reveal_strlit("timestamp");
    assert("interval_year_to_month"@ != "timestamp"@) by {
        assert("interval_year_to_month"@.len() != "timestamp"@.len());
    }
    reveal_strlit("timestamp_tz");
    assert("interval_year_to_month"@ != "timestamp_tz"@) by {
        assert("interval_year_to_month"@.len() != "timestamp_tz"@.len());
    }
    reveal_strlit("date");
    assert("interval_year_to_month"@ != "date"@) by {
        assert("interval_year_to_month"@.len() != "date"@.len());
    }
    reveal_strlit("time");
    assert("interval_year_to_month"@ != "time"@) by {
        assert("interval_year_to_month"@.len() != "time"@.len());
    }
    reveal_strlit("interval_year");
    assert("interval_year_to_month"@ != "interval_year"@) by {
        assert("interval_year_to_month"@.len() != "interval_year"@.len());
    }
    assert(basic_kind_named("interval_year_to_month"@) == Some(BasicKind::IntervalYear));
    lemma_alias_reads_as_name("interval_year_to_month"@, BasicKind::IntervalYear, n);
}

proof fn lemma_alias_interval_year_month(n: i32)
    requires
        n == 1 || n == 2,
    ensures
        parse_type_spec("interval_year_month"@ + nullable_mark(n)) == parse_type_spec("interval_year"@ + nullable_mark(n)),
{
    reveal_strlit("interval_year_month");
    reveal_strlit("boolean");
    assert("interval_year_month"@ != "boolean"@) by {
        assert("interval_year_month"@.len() != "boolean"@.len());
    }
    reveal_strlit("bool");
    assert("interval_year_month"@ != "bool"@) by {
        assert("interval_year_month"@.len() != "bool"@.len());
    }
    reveal_strlit("i8");
    assert("interval_year_month"@ != "i8"@) by {
        assert("interval_year_month"@.len() != "i8"@.len());
    }
    reveal_strlit("int8");
    assert("interval_year_month"@ != "int8"@) by {
        assert("interval_year_month"@.len() != "int8"@.len());
    }
    reveal_strlit("tinyint");
    assert("interval_year_month"@ != "tinyint"@) by {
        assert("interval_year_month"@.len() != "tinyint"@.len());
    }
    reveal_strlit("i16");
    assert("interval_year_month"@ != "i16"@) by {
        assert("interval_year_month"@.len() != "i16"@.len());
    }
    reveal_strlit("int16");
    assert("interval_year_month"@ != "int16"@) by {
        assert("interval_year_month"@.len() != "int16"@.len());
    }
    reveal_strlit("smallint");
    assert("interval_year_month"@ != "smallint"@) by {
        assert("interval_year_month"@.len() != "smallint"@.len());
    }
    reveal_strlit("i32");
    assert("interval_year_month"@ != "i32"@) by {
        assert("interval_year_month"@.len() != "i32"@.len());
    }
    reveal_strlit("int32");
    assert("interval_year_month"@ != "int32"@) by {
        assert("interval_year_month"@.len() != "int32"@.len());
    }
    reveal_strlit("int");
    assert("interval_year_month"@ != "int"@) by {
        assert("interval_year_month"@.len() != "int"@.len());
    }
    reveal_strlit("i64");
    assert("interval_year_month"@ != "i64"@) by {
        assert("interval_year_month"@.len() != "i64"@.len());
    }
    reveal_strlit("int64");
    assert("interval_year_month"@ != "int64"@) by {
        assert("interval_year_month"@.len() != "int64"@.len());
    }
    reveal_strlit("bigint");
    assert("interval_year_month"@ != "bigint"@) by {
        assert("interval_year_month"@.len() != "bigint"@.len());
    }
    reveal_strlit("fp32");
    assert("interval_year_month"@ != "fp32"@) by {
        assert("interval_year_month"@.len() != "fp32"@.len());
    }
    reveal_strlit("float");
    assert("interval_year_month"@ != "float"@) by {
        assert("interval_year_month"@.len() != "float"@.len());
    }
    reveal_strlit("fp64");
    assert("interval_year_month"@ != "fp64"@) by {
        assert("interval_year_month"@.len() != "fp64"@.len());
    }
    reveal_strlit("double");
    assert("interval_year_month"@ != "double"@) by {
        assert("interval_year_month"@.len() != "double"@.len());
    }
    reveal_strlit("string");
    assert("interval_year_month"@ != "string"@) by {
        assert("interval_year_month"@.len() != "string"@.len());
    }
    reveal_strlit("binary");
    assert("interval_year_month"@ != "binary"@) by {
        assert("interval_year_month"@.len() != "binary"@.len());
    }
    reveal_strlit("timestamp");
    assert("interval_year_month"@ != "timestamp"@) by {
        assert("interval_year_month"@.len() != "timestamp"@.len());
    }
    reveal_strlit("timestamp_tz");
    assert("interval_year_month"@ != "timestamp_tz"@) by {
        assert("interval_year_month"@.len() != "timestamp_tz"@.len());
    }
    reveal_strlit("date");
    assert("interval_year_month"@ != "date"@) by {
        assert("interval_year_month"@.len() != "date"@.len());
    }
    reveal_strlit("time");
    assert("interval_year_month"@ != "time"@) by {
        assert("interval_year_month"@.len() != "time"@.len());
    }
    reveal_strlit("interval_year");
    assert("interval_year_month"@ != "interval_year"@) by {
        assert("interval_year_month"@.len() != "interval_year"@.len());
    }
    reveal_strlit("interval_year_to_month");
    assert("interval_year_month"@ != "interval_year_to_month"@) by {
        assert("interval_year_month"@.len() != "interval_year_to_month"@.len());
    }
    assert(basic_kind_named("interval_year_month"@) == Some(BasicKind::IntervalYear));
    lemma_alias_reads_as_name("interval_year_month"@, BasicKind::IntervalYear, n);
}

proof fn lemma_alias_interval_day_to_second(n: i32)
    requires
        n == 1 || n == 2,
    ensures
        parse_type_spec("interval_day_to_second"@ + nullable_mark(n)) == parse_type_spec("interval_day"@ + nullable_mark(n)),
{
    reveal_strlit("interval_day_to_second");
    reveal_strlit("boolean");
    assert("interval_day_to_second"@ != "boolean"@) by {
        assert("interval_day_to_second"@.len() != "boolean"@.len());
    }
    reveal_strlit("bool");
    assert("interval_day_to_second"@ != "bool"@) by {
        assert("interval_day_to_second"@.len() != "bool"@.len());
    }
    reveal_strlit("i8");
    assert("interval_day_to_second"@ != "i8"@) by {
        assert("interval_day_to_second"@.len() != "i8"@.len());
    }
    reveal_strlit("int8");
    assert("interval_day_to_second"@ != "int8"@) by {
        assert("interval_day_to_second"@.len() != "int8"@.len());
    }
    reveal_strlit("tinyint");
    assert("interval_day_to_second"@ != "tinyint"@) by {
        assert("interval_day_to_second"@.len() != "tinyint"@.len());
    }
    reveal_strlit("i16");
    assert("interval_day_to_second"@ != "i16"@) by {
        assert("interval_day_to_second"@.len() != "i16"@.len());
    }
    reveal_strlit("int16");
    assert("interval_day_to_second"@ != "int16"@) by {
        assert("interval_day_to_second"@.len() != "int16"@.len());
    }
    reveal_strlit("smallint");
    assert("interval_day_to_second"@ != "smallint"@) by {
        assert("interval_day_to_second"@.len() != "smallint"@.len());
    }
    reveal_strlit("i32");
    assert("interval_day_to_second"@ != "i32"@) by {
        assert("interval_day_to_second"@.len() != "i32"@.len());
    }
    reveal_strlit("int32");
    assert("interval_day_to_second"@ != "int32"@) by {
        assert("interval_day_to_second"@.len() != "int32"@.len());
    }
    reveal_strlit("int");
    assert("interval_day_to_second"@ != "int"@) by {
        assert("interval_day_to_second"@.len() != "int"@.len());
    }
    reveal_strlit("i64");
    assert("interval_day_to_second"@ != "i64"@) by {
        assert("interval_day_to_second"@.len() != "i64"@.len());
    }
    reveal_strlit("int64");
    assert("interval_day_to_second"@ != "int64"@) by {
        assert("interval_day_to_second"@.len() != "int64"@.len());
    }
    reveal_strlit("bigint");
    assert("interval_day_to_second"@ != "bigint"@) by {
        assert("interval_day_to_second"@.len() != "bigint"@.len());
    }
    reveal_strlit("fp32");
    assert("interval_day_to_second"@ != "fp32"@) by {
        assert("interval_day_to_second"@.len() != "fp32"@.len());
    }
    reveal_strlit("float");
    assert("interval_day_to_second"@ != "float"@) by {
        assert("interval_day_to_second"@.len() != "float"@.len());
    }
    reveal_strlit("fp64");
    assert("interval_day_to_second"@ != "fp64"@) by {
        assert("interval_day_to_second"@.len() != "fp64"@.len());
    }
    reveal_strlit("double");
    assert("interval_day_to_second"@ != "double"@) by {
        assert("interval_day_to_second"@.len() != "double"@.len());
    }
    reveal_strlit("string");
    assert("interval_day_to_second"@ != "string"@) by {
        assert("interval_day_to_second"@.len() != "string"@.len());
    }
    reveal_strlit("binary");
    assert("interval_day_to_second"@ != "binary"@) by {
        assert("interval_day_to_second"@.len() != "binary"@.len());
    }
    reveal_strlit("timestamp");
    assert("interval_day_to_second"@ != "timestamp"@) by {
        assert("interval_day_to_second"@.len() != "timestamp"@.len());
    }
    reveal_strlit("timestamp_tz");
    assert("interval_day_to_second"@ != "timestamp_tz"@) by {
        assert("interval_day_to_second"@.len() != "timestamp_tz"@.len());
    }
    reveal_strlit("date");
    assert("interval_day_to_second"@ != "date"@) by {
        assert("interval_day_to_second"@.len() != "date"@.len());
    }
    reveal_strlit("time");
    assert("interval_day_to_second"@ != "time"@) by {
        assert("interval_day_to_second"@.len() != "time"@.len());
    }
    reveal_strlit("interval_year");
    assert("interval_day_to_second"@ != "interval_year"@) by {
        assert("interval_day_to_second"@.len() != "interval_year"@.len());
    }
    reveal_strlit("interval_year_to_month");
    assert("interval_day_to_second"@ != "interval_year_to_month"@) by {
        assert("interval_day_to_second"@[9] != "interval_year_to_month"@[9]);
    }
    reveal_strlit("interval_year_month");
    assert("interval_day_to_second"@ != "interval_year_month"@) by {
        assert("interval_day_to_second"@.len() != "interval_year_month"@.len());
    }
    reveal_strlit("interval_day");
    assert("interval_day_to_second"@ != "interval_day"@) by {
        assert("interval_day_to_second"@.len() != "interval_day"@.len());
    }
    assert(basic_kind_named("interval_day_to_second"@) == Some(BasicKind::IntervalDay));
    lemma_alias_reads_as_name("interval_day_to_second"@, BasicKind::IntervalDay, n);
}

proof fn lemma_alias_interval_day_second(n: i32)
    requires
        n == 1 || n == 2,
    ensures
        parse_type_spec("interval_day_second"@ + nullable_mark(n)) == parse_type_spec("interval_day"@ + nullable_mark(n)),
{
    reveal_strlit("interval_day_second");
    reveal_strlit("boolean");
    assert("interval_day_second"@ != "boolean"@) by {
        assert("interval_day_second"@.len() != "boolean"@.len());
    }
    reveal_strlit("bool");
    assert("interval_day_second"@ != "bool"@) by {
        assert("interval_day_second"@.len() != "bool"@.len());
    }
    reveal_strlit("i8");
    assert("interval_day_second"@ != "i8"@) by {
        assert("interval_day_second"@.len() != "i8"@.len());
    }
    reveal_strlit("int8");
    assert("interval_day_second"@ != "int8"@) by {
        assert("interval_day_second"@.len() != "int8"@.len());
    }
    reveal_strlit("tinyint");
    assert("interval_day_second"@ != "tinyint"@) by {
        assert("interval_day_second"@.len() != "tinyint"@.len());
    }
    reveal_strlit("i16");
    assert("interval_day_second"@ != "i16"@) by {
        assert("interval_day_second"@.len() != "i16"@.len());
    }
    reveal_strlit("int16");
    assert("interval_day_second"@ != "int16"@) by {
        assert("interval_day_second"@.len() != "int16"@.len());
    }
    reveal_strlit("smallint");
    assert("interval_day_second"@ != "smallint"@) by {
        assert("interval_day_second"@.len() != "smallint"@.len());
    }
    reveal_strlit("i32");
    assert("interval_day_second"@ != "i32"@) by {
        assert("interval_day_second"@.len() != "i32"@.len());
    }
    reveal_strlit("int32");
    assert("interval_day_second"@ != "int32"@) by {
        assert("interval_day_second"@.len() != "int32"@.len());
    }
    reveal_strlit("int");
    assert("interval_day_second"@ != "int"@) by {
        assert("interval_day_second"@.len() != "int"@.len());
    }
    reveal_strlit("i64");
    assert("interval_day_second"@ != "i64"@) by {
        assert("interval_day_second"@.len() != "i64"@.len());
    }
    reveal_strlit("int64");
    assert("interval_day_second"@ != "int64"@) by {
        assert("interval_day_second"@.len() != "int64"@.len());
    }
    reveal_strlit("bigint");
    assert("interval_day_second"@ != "bigint"@) by {
        assert("interval_day_second"@.len() != "bigint"@.len());
    }
    reveal_strlit("fp32");
    assert("interval_day_second"@ != "fp32"@) by {
        assert("interval_day_second"@.len() != "fp32"@.len());
    }
    reveal_strlit("float");
    assert("interval_day_second"@ != "float"@) by {
        assert("interval_day_second"@.len() != "float"@.len());
    }
    reveal_strlit("fp64");
    assert("interval_day_second"@ != "fp64"@) by {
        assert("interval_day_second"@.len() != "fp64"@.len());
    }
    reveal_strlit("double");
    assert("interval_day_second"@ != "double"@) by {
        assert("interval_day_second"@.len() != "double"@.len());
    }
    reveal_strlit("string");
    assert("interval_day_second"@ != "string"@) by {
        assert("interval_day_second"@.len() != "string"@.len());
    }
    reveal_strlit("binary");
    assert("interval_day_second"@ != "binary"@) by {
        assert("interval_day_second"@.len() != "binary"@.len());
    }
    reveal_strlit("timestamp");
    assert("interval_day_second"@ != "timestamp"@) by {
        assert("interval_day_second"@.len() != "timestamp"@.len());
    }
    reveal_strlit("timestamp_tz");
    assert("interval_day_second"@ != "timestamp_tz"@) by {
        assert("interval_day_second"@.len() != "timestamp_tz"@.len());
    }
    reveal_strlit("date");
    assert("interval_day_second"@ != "date"@) by {
        assert("interval_day_second"@.len() != "date"@.len());
    }
    reveal_strlit("time");
    assert("interval_day_second"@ != "time"@) by {
        assert("interval_day_second"@.len() != "time"@.len());
    }
    reveal_strlit("interval_year");
    assert("interval_day_second"@ != "interval_year"@) by {
        assert("interval_day_second"@.len() != "interval_year"@.len());
    }
    reveal_strlit("interval_year_to_month");
    assert("interval_day_second"@ != "interval_year_to_month"@) by {
        assert("interval_day_second"@.len() != "interval_year_to_month"@.len());
    }
    reveal_strlit("interval_year_month");
    assert("interval_day_second"@ != "interval_year_month"@) by {
        assert("interval_day_second"@[9] != "interval_year_month"@[9]);
    }
    reveal_strlit("interval_day");
    assert("interval_day_second"@ != "interval_day"@) by {
        assert("interval_day_second"@.len() != "interval_day"@.len());
    }
    reveal_strlit("interval_day_to_second");
    assert("interval_day_second"@ != "interval_day_to_second"@) by {
        assert("interval_day_second"@.len() != "interval_day_to_second"@.len());
    }
    assert(basic_kind_named("interval_day_second"@) == Some(BasicKind::IntervalDay));
    lemma_alias_reads_as_name("interval_day_second"@, BasicKind::IntervalDay, n);
}

/// Every other accepted spelling of a parameterless type reads, nullable or required, as
/// the same type as the type's own name: `boolean` as `bool`, `int8` and `tinyint` as `i8`,
/// `int16` and `smallint` as `i16`, `int32` and `int` as `i32`, `int64` and `bigint` as
/// `i64`, `float` as `fp32`, `double` as `fp64`, `interval_year_to_month` and
/// `interval_year_month` as `interval_year`, `interval_day_to_second` and
/// `interval_day_second` as `interval_day`.
pub proof fn lemma_type_aliases_read_as_their_type(n: i32)
    requires
        n == NULLABILITY_NULLABLE || n == NULLABILITY_REQUIRED,
    ensures
        parse_type_spec("boolean"@ + nullable_mark(n)) == parse_type_spec("bool"@ + nullable_mark(n)),
        parse_type_spec("int8"@ + nullable_mark(n)) == parse_type_spec("i8"@ + nullable_mark(n)),
        parse_type_spec("tinyint"@ + nullable_mark(n)) == parse_type_spec("i8"@ + nullable_mark(n)),
        parse_type_spec("int16"@ + nullable_mark(n)) == parse_type_spec("i16"@ + nullable_mark(n)),
        parse_type_spec("smallint"@ + nullable_mark(n)) == parse_type_spec("i16"@ + nullable_mark(n)),
        parse_type_spec("int32"@ + nullable_mark(n)) == parse_type_spec("i32"@ + nullable_mark(n)),
        parse_type_spec("int"@ + nullable_mark(n)) == parse_type_spec("i32"@ + nullable_mark(n)),
        parse_type_spec("int64"@ + nullable_mark(n)) == parse_type_spec("i64"@ + nullable_mark(n)),
        parse_type_spec("bigint"@ + nullable_mark(n)) == parse_type_spec("i64"@ + nullable_mark(n)),
        parse_type_spec("float"@ + nullable_mark(n)) == parse_type_spec("fp32"@ + nullable_mark(n)),
        parse_type_spec("double"@ + nullable_mark(n)) == parse_type_spec("fp64"@ + nullable_mark(n)),
        parse_type_spec("interval_year_to_month"@ + nullable_mark(n)) == parse_type_spec(
            "interval_year"@ + nullable_mark(n),
        ),
        parse_type_spec("interval_year_month"@ + nullable_mark(n)) == parse_type_spec(
            "interval_year"@ + nullable_mark(n),
        ),
        parse_type_spec("interval_day_to_second"@ + nullable_mark(n)) == parse_type_spec(
            "interval_day"@ + nullable_mark(n),
        ),
        parse_type_spec("interval_day_second"@ + nullable_mark(n)) == parse_type_spec(
            "interval_day"@ + nullable_mark(n),
        ),
{
    lemma_alias_boolean(n);
    lemma_alias_int8(n);
    lemma_alias_tinyint(n);
    lemma_alias_int16(n);
    lemma_alias_smallint(n);
    lemma_alias_int32(n);
    lemma_alias_int(n);
    lemma_alias_int64(n);
    lemma_alias_bigint(n);
    lemma_alias_float(n);
    lemma_alias_double(n);
    lemma_alias_interval_year_to_month(n);
    lemma_alias_interval_year_month(n);
    lemma_alias_interval_day_to_second(n);
    lemma_alias_interval_day_second(n);
}

/// The spelling of a type, or the message of the error that printing it gives.
pub open spec fn type_result(t: Type) -> Result<Seq<char>, Seq<char>> {
    match type_text_spec(t@) {
        Some(x) => Ok(x),
        None => Err("Type has no kind"@),
    }
}

/// Whether a symbol is a function with the given anchor.
pub open spec fn is_function_with_anchor(s: SymbolInfoView, anchor: u32) -> bool {
    &&& s.symbol_type == SymbolType::Function
    &&& s.blob matches Some(BlobView::Function { anchor: a, .. }) && a == anchor
}

/// The name of the first function of the table with the given anchor, or `functionref#`
/// and the anchor when there is none.
pub open spec fn function_name_for(table: Seq<SymbolInfoView>, anchor: u32) -> Seq<char>
    decreases table.len(),
{
    if table.len() == 0 {
        "functionref#"@ + decimal(anchor as nat)
    } else if is_function_with_anchor(table[0], anchor) {
        table[0].name
    } else {
        function_name_for(table.drop_first(), anchor)
    }
}

/// The spelling of an expression, or the message of the first error in it.
pub open spec fn expression_text(e: Expression, t: Seq<SymbolInfoView>) -> Result<
    Seq<char>,
    Seq<char>,
>
    decreases e, 2int,
{
    match e.rex_type {
        None => Err("Expression has no rex_type"@),
        Some(RexType::Literal(l)) => literal_text(l),
        Some(RexType::ScalarFunction(f)) => match (match arguments_texts(f.arguments@, t) {
            Err(m) => Err(m),
            Ok(a) => match expressions_texts(f.args@, t) {
                Err(m) => Err(m),
                Ok(b) => Ok(comma_joined(a + b)),
            },
        }) {
            Err(m) => Err(m),
            Ok(inner) => {
                let head = function_name_for(t, f.function_reference) + seq!['('] + inner + seq![
                    ')',
                ];
                match f.output_type {
                    None => Ok(head),
                    Some(ty) => match type_result(ty) {
                        Err(m) => Err(m),
                        Ok(tt) => Ok(head + "->"@ + tt),
                    },
                }
            },
        },
        Some(RexType::WindowFunction) => Ok("WINDOW_FUNCTION_NOT_YET_IMPLEMENTED"@),
        Some(RexType::IfThen(it)) => match clauses_texts(it.ifs@, t) {
            Err(m) => Err(m),
            Ok(cs) => match it.otherwise {
                None => Ok("IFTHEN("@ + comma_joined(cs) + seq![')']),
                Some(b) => match expression_text(*b, t) {
                    Err(m) => Err(m),
                    Ok(x) => Ok(
                        "IFTHEN("@ + comma_joined(cs) + (if cs.len() > 0 {
                            ", "@
                        } else {
                            Seq::empty()
                        }) + x + seq![')'],
                    ),
                },
            },
        },
        Some(RexType::SwitchExpression) => Ok("SWITCH_EXPRESSION_NOT_YET_IMPLEMENTED"@),
        Some(RexType::SingularOrList) => Ok("SINGULAR_OR_LIST_NOT_YET_IMPLEMENTED"@),
        Some(RexType::MultiOrList) => Ok("MULTI_OR_LIST_NOT_YET_IMPLEMENTED"@),
        Some(RexType::Cast(c)) => match (match c.input {
            Some(b) => expression_text(*b, t),
            None => Ok("MISSING_CAST_INPUT"@),
        }) {
            Err(m) => Err(m),
            Ok(x) => match (match c.target {
                Some(ty) => type_result(ty),
                None => Ok("MISSING_CAST_TYPE"@),
            }) {
                Err(m) => Err(m),
                Ok(y) => Ok(x + " AS "@ + y),
            },
        },
        Some(RexType::Nested) => Ok("NESTED_NOT_YET_IMPLEMENTED"@),
        Some(RexType::Enum) => Ok("ENUM_NOT_YET_IMPLEMENTED"@),
        Some(RexType::DynamicParameter) => Ok("DYNAMIC_PARAMETER_NOT_YET_IMPLEMENTED"@),
    }
}

/// The spelling of one argument of a call.
pub open spec fn argument_text(a: FunctionArgument, t: Seq<SymbolInfoView>) -> Result<
    Seq<char>,
    Seq<char>,
>
    decreases a, 1int,
{
    match a.arg_type {
        None => Ok("MISSING_ARGUMENT"@),
        Some(ArgType::Enum(s)) => Ok(s@ + "_enum"@),
        Some(ArgType::Type(ty)) => type_result(ty),
        Some(ArgType::Value(e)) => expression_text(e, t),
    }
}

/// The spellings of a list of arguments, or the first error among them.
pub open spec fn arguments_texts(s: Seq<FunctionArgument>, t: Seq<SymbolInfoView>) -> Result<
    Seq<Seq<char>>,
    Seq<char>,
>
    decreases s, 3int,
{
    if s.len() == 0 {
        Ok(Seq::empty())
    } else {
        match arguments_texts(s.drop_last(), t) {
            Err(m) => Err(m),
            Ok(prev) => match argument_text(s.last(), t) {
                Err(m) => Err(m),
                Ok(x) => Ok(prev.push(x)),
            },
        }
    }
}

/// The spellings of a list of expressions, or the first error among them.
pub open spec fn expressions_texts(s: Seq<Expression>, t: Seq<SymbolInfoView>) -> Result<
    Seq<Seq<char>>,
    Seq<char>,
>
    decreases s, 3int,
{
    if s.len() == 0 {
        Ok(Seq::empty())
    } else {
        match expressions_texts(s.drop_last(), t) {
            Err(m) => Err(m),
            Ok(prev) => match expression_text(s.last(), t) {
                Err(m) => Err(m),
                Ok(x) => Ok(prev.push(x)),
            },
        }
    }
}

/// The arguments of a call, the newer ones first, separated by `, `.
pub open spec fn call_text(
    arguments: Seq<FunctionArgument>,
    args: Seq<Expression>,
    t: Seq<SymbolInfoView>,
) -> Result<Seq<char>, Seq<char>> {
    match arguments_texts(arguments, t) {
        Err(m) => Err(m),
        Ok(a) => match expressions_texts(args, t) {
            Err(m) => Err(m),
            Ok(b) => Ok(comma_joined(a + b)),
        },
    }
}

/// The spelling of one clause of an if-then expression.
pub open spec fn clause_text(c: IfClause, t: Seq<SymbolInfoView>) -> Result<Seq<char>, Seq<char>>
    decreases c, 1int,
{
    match (match c.condition {
        Some(b) => expression_text(*b, t),
        None => Ok("MISSING_IF"@),
    }) {
        Err(m) => Err(m),
        Ok(x) => match (match c.result {
            Some(b) => expression_text(*b, t),
            None => Ok("MISSING_THEN"@),
        }) {
            Err(m) => Err(m),
            Ok(y) => Ok(x + ", "@ + y),
        },
    }
}

/// The spellings of the clauses of an if-then expression, or the first error among them.
pub open spec fn clauses_texts(s: Seq<IfClause>, t: Seq<SymbolInfoView>) -> Result<
    Seq<Seq<char>>,
    Seq<char>,
>
    decreases s, 3int,
{
    if s.len() == 0 {
        Ok(Seq::empty())
    } else {
        match clauses_texts(s.drop_last(), t) {
            Err(m) => Err(m),
            Ok(prev) => match clause_text(s.last(), t) {
                Err(m) => Err(m),
                Ok(x) => Ok(prev.push(x)),
            },
        }
    }
}

proof fn lemma_arguments_error(s: Seq<FunctionArgument>, t: Seq<SymbolInfoView>, k: int)
    requires
        0 <= k <= s.len(),
        arguments_texts(s.take(k), t) is Err,
    ensures
        arguments_texts(s, t) == arguments_texts(s.take(k), t),
    decreases s.len() - k,
{
    if k < s.len() {
        assert(s.take(k + 1).drop_last() =~= s.take(k));
        lemma_arguments_error(s, t, k + 1);
    } else {
        assert(s.take(k) =~= s);
    }
}

proof fn lemma_expressions_error(s: Seq<Expression>, t: Seq<SymbolInfoView>, k: int)
    requires
        0 <= k <= s.len(),
        expressions_texts(s.take(k), t) is Err,
    ensures
        expressions_texts(s, t) == expressions_texts(s.take(k), t),
    decreases s.len() - k,
{
    if k < s.len() {
        assert(s.take(k + 1).drop_last() =~= s.take(k));
        lemma_expressions_error(s, t, k + 1);
    } else {
        assert(s.take(k) =~= s);
    }
}

/// An if-then expression prints one `condition, result` part for every one of its clauses,
/// in order: the clause texts are had exactly when every clause prints, and then there is one
/// text per clause, the i-th being the text of the i-th clause.
pub proof fn lemma_clauses_texts_cover_every_clause(s: Seq<IfClause>, t: Seq<SymbolInfoView>)
    ensures
        (clauses_texts(s, t) is Ok) <==> (forall|i: int|
            0 <= i < s.len() ==> (#[trigger] clause_text(s[i], t)) is Ok),
        clauses_texts(s, t) matches Ok(v) ==> {
            &&& v.len() == s.len()
            &&& forall|i: int|
                0 <= i < s.len() ==> #[trigger] clause_text(s[i], t) == Ok::<
                    Seq<char>,
                    Seq<char>,
                >(v[i])
        },
    decreases s.len(),
{
    if s.len() > 0 {
        let p = s.drop_last();
        lemma_clauses_texts_cover_every_clause(p, t);
        assert forall|i: int| 0 <= i < p.len() implies p[i] == s[i] by {}
        if clauses_texts(p, t) is Ok {
            assert(forall|i: int| 0 <= i < p.len() ==> (#[trigger] clause_text(p[i], t)) is Ok);
        } else {
            let w = choose|i: int|
                0 <= i < p.len() && !((#[trigger] clause_text(p[i], t)) is Ok);
            assert(0 <= w < s.len() && !(clause_text(s[w], t) is Ok));
        }
        if !(clause_text(s.last(), t) is Ok) {
            assert(!(clause_text(s[s.len() - 1], t) is Ok));
        }
    }
}

/// An if-then expression without an else branch whose clauses all print is spelled
/// `IFTHEN(`, the texts of all its clauses in order joined by `, `, and `)`.
pub proof fn lemma_if_then_text_holds_every_clause(it: IfThen, t: Seq<SymbolInfoView>)
    requires
        it.otherwise is None,
        forall|i: int| 0 <= i < it.ifs@.len() ==> (#[trigger] clause_text(it.ifs@[i], t)) is Ok,
    ensures
        expression_text(Expression { rex_type: Some(RexType::IfThen(it)) }, t) == Ok::<
            Seq<char>,
            Seq<char>,
        >(
            "IFTHEN("@ + comma_joined(
                Seq::new(it.ifs@.len(), |i: int| clause_text(it.ifs@[i], t)->Ok_0),
            ) + seq![')'],
        ),
{
    lemma_clauses_texts_cover_every_clause(it.ifs@, t);
    let cs = clauses_texts(it.ifs@, t)->Ok_0;
    assert(cs =~= Seq::new(it.ifs@.len(), |i: int| clause_text(it.ifs@[i], t)->Ok_0));
}

proof fn lemma_clauses_error(s: Seq<IfClause>, t: Seq<SymbolInfoView>, k: int)
    requires
        0 <= k <= s.len(),
        clauses_texts(s.take(k), t) is Err,
    ensures
        clauses_texts(s, t) == clauses_texts(s.take(k), t),
    decreases s.len() - k,
{
    if k < s.len() {
        assert(s.take(k + 1).drop_last() =~= s.take(k));
        lemma_clauses_error(s, t, k + 1);
    } else {
        assert(s.take(k) =~= s);
    }
}

/// The preferences of a function option, each after a `;`.
pub open spec fn preferences_text(p: Seq<String>) -> Seq<char>
    decreases p.len(),
{
    if p.len() == 0 {
        Seq::empty()
    } else {
        preferences_text(p.drop_last()) + seq![';'] + p.last()@
    }
}

/// The options of a function call, each as `#`, its name and its preferences.
pub open spec fn options_text(opts: Seq<FunctionOption>) -> Seq<char>
    decreases opts.len(),
{
    if opts.len() == 0 {
        Seq::empty()
    } else {
        options_text(opts.drop_last()) + seq!['#'] + opts.last().name@ + preferences_text(
            opts.last().preference@,
        )
    }
}

/// The name of an aggregation phase code.
pub open spec fn phase_name(phase: i32) -> Seq<char> {
    if phase == 0 {
        "AGGREGATION_PHASE_UNSPECIFIED"@
    } else if phase == 1 {
        "AGGREGATION_PHASE_INITIAL_TO_INTERMEDIATE"@
    } else if phase == 2 {
        "AGGREGATION_PHASE_INTERMEDIATE_TO_INTERMEDIATE"@
    } else if phase == 3 {
        "AGGREGATION_PHASE_INITIAL_TO_RESULT"@
    } else if phase == 4 {
        "AGGREGATION_PHASE_INTERMEDIATE_TO_RESULT"@
    } else {
        "UNKNOWN_PHASE"@
    }
}

/// The spelling of an aggregate function call: the function's name, its arguments, its
/// options, its output type and, after `@`, its phase.
pub open spec fn aggregate_text(f: AggregateFunction, t: Seq<SymbolInfoView>) -> Result<
    Seq<char>,
    Seq<char>,
> {
    match call_text(f.arguments@, f.args@, t) {
        Err(m) => Err(m),
        Ok(inner) => {
            let head = function_name_for(t, f.function_reference) + seq!['('] + inner + seq![')']
                + options_text(f.options@);
            match f.output_type {
                None => Ok(head + seq!['@'] + phase_name(f.phase)),
                Some(ty) => match type_result(ty) {
                    Err(m) => Err(m),
                    Ok(tt) => Ok(head + "->"@ + tt + seq!['@'] + phase_name(f.phase)),
                },
            }
        },
    }
}

/// Prints the name of an aggregation phase code.
fn phase_text(phase: i32) -> (r: &'static str)
    ensures
        r@ == phase_name(phase),
{
    if phase == 0 {
        "AGGREGATION_PHASE_UNSPECIFIED"
    } else if phase == 1 {
        "AGGREGATION_PHASE_INITIAL_TO_INTERMEDIATE"
    } else if phase == 2 {
        "AGGREGATION_PHASE_INTERMEDIATE_TO_INTERMEDIATE"
    } else if phase == 3 {
        "AGGREGATION_PHASE_INITIAL_TO_RESULT"
    } else if phase == 4 {
        "AGGREGATION_PHASE_INTERMEDIATE_TO_RESULT"
    } else {
        "UNKNOWN_PHASE"
    }
}

/// Appends the options of a function call.
fn push_options(out: &mut String, options: &[FunctionOption])
    ensures
        final(out)@ == old(out)@ + options_text(options@),
{
    let mut i: usize = 0;
    while i < options.len()
        invariant
            i <= options@.len(),
            out@ == old(out)@ + options_text(options@.take(i as int)),
        decreases options.len() - i,
    {
        let option = &options[i];
        let ghost before = out@;
        push_char(out, '#');
        out.append(option.name.as_str());
        let mut j: usize = 0;
        let ghost mid = out@;
        while j < option.preference.len()
            invariant
                j <= option.preference@.len(),
                out@ == mid + preferences_text(option.preference@.take(j as int)),
            decreases option.preference.len() - j,
        {
            push_char(out, ';');
            out.append(option.preference[j].as_str());
            assert(option.preference@.take(j + 1).drop_last() =~= option.preference@.take(j as int));
            assert(out@ =~= mid + preferences_text(option.preference@.take(j + 1)));
            j += 1;
        }
        assert(option.preference@.take(option.preference.len() as int) =~= option.preference@);
        assert(options@.take(i + 1).drop_last() =~= options@.take(i as int));
        assert(options@.take(i + 1).last() == *option);
        assert(out@ =~= old(out)@ + options_text(options@.take(i + 1)));
        i += 1;
    }
    assert(options@.take(options.len() as int) =~= options@);
}

/// Whether a printing result is the given spelling, or the error with the given message.
pub open spec fn printed(r: Result<String, TextPlanError>, x: Result<Seq<char>, Seq<char>>) -> bool {
    match x {
        Ok(t) => r matches Ok(s) && s@ == t,
        Err(m) => r matches Err(TextPlanError::InvalidExpression(e)) && e@ == m,
    }
}

/// Whether a result is the given list of spellings, or the error with the given message.
pub open spec fn printed_list(
    r: Result<Vec<String>, TextPlanError>,
    x: Result<Seq<Seq<char>>, Seq<char>>,
) -> bool {
    match x {
        Ok(ts) => r matches Ok(v) && texts_view(v@) == ts,
        Err(m) => r matches Err(TextPlanError::InvalidExpression(e)) && e@ == m,
    }
}

/// Prints a type, as `print_type_text` does.
fn print_type_result(t: &Type) -> (r: Result<String, TextPlanError>)
    ensures
        printed(r, type_result(*t)),
{
    proof {
        reveal_strlit("Type has no kind");
    }
    print_type_text(t)
}

/// A printer for converting Substrait expressions to textplan format, looking function
/// names up in a symbol table.
pub struct ExpressionPrinter<'a> {
    /// The symbol table for looking up function names
    symbol_table: &'a SymbolTable,
    /// The current scope (relation) for resolving field references
    current_scope: Option<&'a SymbolInfo>,
    /// Index for tracking subquery lookups within the current scope
    current_scope_index: i32,
}

impl<'a> ExpressionPrinter<'a> {
    /// The symbols of the table that names functions.
    pub closed spec fn spec_symbols(&self) -> Seq<SymbolInfoView> {
        self.symbol_table@
    }

    /// Creates a new ExpressionPrinter with the given symbol table and scope.
    pub fn new(symbol_table: &'a SymbolTable, current_scope: Option<&'a SymbolInfo>) -> (r: Self)
        ensures
            r.spec_symbols() == symbol_table@,
    {
        Self { symbol_table, current_scope, current_scope_index: 0 }
    }

    /// Prints an expression to a string.
    pub fn print_expression(&mut self, expr: &Expression) -> (r: Result<String, TextPlanError>)
        ensures
            printed(r, expression_text(*expr, old(self).spec_symbols())),
            final(self).spec_symbols() == old(self).spec_symbols(),
    {
        self.print_expr(expr)
    }

    /// Prints an aggregate function.
    pub fn print_aggregate_function(&mut self, func: &AggregateFunction) -> (r: Result<
        String,
        TextPlanError,
    >)
        ensures
            printed(r, aggregate_text(*func, old(self).spec_symbols())),
            final(self).spec_symbols() == old(self).spec_symbols(),
    {
        self.print_aggregate_function_impl(func)
    }

    /// Prints an aggregate function call: its name, its arguments, its options, its output
    /// type and its phase.
    fn print_aggregate_function_impl(&self, func: &AggregateFunction) -> (r: Result<
        String,
        TextPlanError,
    >)
        ensures
            printed(r, aggregate_text(*func, self.symbol_table@)),
    {
        let mut result = self.lookup_function_reference(func.function_reference);
        push_char(&mut result, '(');
        let inner = match self.print_call_arguments(func.arguments.as_slice(), func.args.as_slice()) {
            Ok(x) => x,
            Err(e) => {
                return Err(e);
            },
        };
        let ghost t = self.symbol_table@;
        assert(call_text(func.arguments@, func.args@, t) == Ok::<Seq<char>, Seq<char>>(inner@));
        result.append(inner.as_str());
        push_char(&mut result, ')');
        push_options(&mut result, func.options.as_slice());
        let ghost head = result@;
        assert(head == function_name_for(t, func.function_reference) + seq!['('] + inner@ + seq![
            ')',
        ] + options_text(func.options@));
        proof {
            reveal_strlit("->");
        }
        match &func.output_type {
            None => {
                push_char(&mut result, '@');
                result.append(phase_text(func.phase));
                assert(result@ == head + seq!['@'] + phase_name(func.phase));
            },
            Some(ty) => match print_type_result(ty) {
                Ok(tt) => {
                    result.append("->");
                    result.append(tt.as_str());
                    push_char(&mut result, '@');
                    result.append(phase_text(func.phase));
                    assert(result@ == head + "->"@ + tt@ + seq!['@'] + phase_name(func.phase));
                },
                Err(e) => {
                    return Err(e);
                },
            },
        }
        assert(aggregate_text(*func, t) == Ok::<Seq<char>, Seq<char>>(result@));
        Ok(result)
    }

    /// Prints a type annotation.
    pub fn print_type(&self, type_val: &Type) -> (r: Result<String, TextPlanError>)
        ensures
            printed(r, type_result(*type_val)),
    {
        print_type_result(type_val)
    }

    /// Looks up a function name by its reference anchor.
    fn lookup_function_reference(&self, function_reference: u32) -> (r: String)
        ensures
            r@ == function_name_for(self.symbol_table@, function_reference),
    {
        let symbols = self.symbol_table.symbols();
        let ghost t = self.symbol_table@;
        let mut i: usize = 0;
        assert(t.skip(0) =~= t);
        while i < symbols.len()
            invariant
                i <= symbols@.len(),
                t == self.symbol_table@,
                symbols@.map_values(|s: SymbolInfo| s@) == t,
                function_name_for(t, function_reference) == function_name_for(
                    t.skip(i as int),
                    function_reference,
                ),
            decreases symbols.len() - i,
        {
            let symbol = &symbols[i];
            assert(t[i as int] == symbol@);
            assert(t.skip(i as int)[0] == symbol@);
            if symbol.symbol_type() == SymbolType::Function {
                if let Some(SymbolBlob::Function(data)) = symbol.blob() {
                    if data.anchor == function_reference {
                        assert(is_function_with_anchor(t.skip(i as int)[0], function_reference));
                        assert(function_name_for(t.skip(i as int), function_reference) == t.skip(
                            i as int,
                        )[0].name);
                        let name = symbol.name();
                        let r = String::from_str(name);
                        assert(r@ == name@);
                        assert(name@ == t.skip(i as int)[0].name);
                        return r;
                    }
                }
            }
            assert(t.skip(i as int).drop_first() =~= t.skip(i + 1));
            i += 1;
        }
        assert(t.skip(i as int) =~= Seq::<SymbolInfoView>::empty());
        let mut r = String::from_str("functionref#");
        push_decimal(&mut r, function_reference as u128);
        proof {
            reveal_strlit("functionref#");
        }
        r
    }

    /// Prints the arguments of a call.
    fn print_arguments(&self, arguments: &[FunctionArgument]) -> (r: Result<
        Vec<String>,
        TextPlanError,
    >)
        ensures
            printed_list(r, arguments_texts(arguments@, self.symbol_table@)),
        decreases arguments@, 1int,
    {
        let ghost t = self.symbol_table@;
        let mut texts: Vec<String> = Vec::new();
        let mut i: usize = 0;
        assert(arguments@.take(0) =~= Seq::<FunctionArgument>::empty());
        assert(texts_view(texts@) =~= Seq::<Seq<char>>::empty());
        while i < arguments.len()
            invariant
                i <= arguments@.len(),
                t == self.symbol_table@,
                arguments_texts(arguments@.take(i as int), t) == Ok::<Seq<Seq<char>>, Seq<char>>(
                    texts_view(texts@),
                ),
            decreases arguments.len() - i,
        {
            let a = &arguments[i];
            assert(arguments@.take(i + 1).drop_last() =~= arguments@.take(i as int));
            assert(arguments@.take(i + 1).last() == *a);
            let x = match &a.arg_type {
                None => {
                    proof {
                        reveal_strlit("MISSING_ARGUMENT");
                    }
                    String::from_str("MISSING_ARGUMENT")
                },
                Some(ArgType::Enum(v)) => {
                    proof {
                        reveal_strlit("_enum");
                    }
                    concatenated(v.as_str(), "_enum")
                },
                Some(ArgType::Type(ty)) => match print_type_result(ty) {
                    Ok(x) => x,
                    Err(e) => {
                        proof {
                            lemma_arguments_error(arguments@, t, i + 1);
                        }
                        return Err(e);
                    },
                },
                Some(ArgType::Value(e)) => {
                    assert(decreases_to!(arguments@ => *e));
                    match self.print_expr(e) {
                        Ok(x) => x,
                        Err(err) => {
                            proof {
                                lemma_arguments_error(arguments@, t, i + 1);
                            }
                            return Err(err);
                        },
                    }
                },
            };
            assert(argument_text(*a, t) == Ok::<Seq<char>, Seq<char>>(x@));
            let ghost before = texts@;
            texts.push(x);
            assert(texts_view(texts@) =~= texts_view(before).push(x@));
            i += 1;
        }
        assert(arguments@.take(arguments.len() as int) =~= arguments@);
        Ok(texts)
    }

    /// Prints a list of expressions.
    fn print_expressions(&self, args: &[Expression]) -> (r: Result<Vec<String>, TextPlanError>)
        ensures
            printed_list(r, expressions_texts(args@, self.symbol_table@)),
        decreases args@, 1int,
    {
        let ghost t = self.symbol_table@;
        let mut texts: Vec<String> = Vec::new();
        let mut i: usize = 0;
        assert(args@.take(0) =~= Seq::<Expression>::empty());
        assert(texts_view(texts@) =~= Seq::<Seq<char>>::empty());
        while i < args.len()
            invariant
                i <= args@.len(),
                t == self.symbol_table@,
                expressions_texts(args@.take(i as int), t) == Ok::<Seq<Seq<char>>, Seq<char>>(
                    texts_view(texts@),
                ),
            decreases args.len() - i,
        {
            let e = &args[i];
            assert(args@.take(i + 1).drop_last() =~= args@.take(i as int));
            assert(args@.take(i + 1).last() == *e);
            assert(decreases_to!(args@ => *e));
            let x = match self.print_expr(e) {
                Ok(x) => x,
                Err(err) => {
                    proof {
                        lemma_expressions_error(args@, t, i + 1);
                    }
                    return Err(err);
                },
            };
            let ghost before = texts@;
            texts.push(x);
            assert(texts_view(texts@) =~= texts_view(before).push(x@));
            i += 1;
        }
        assert(args@.take(args.len() as int) =~= args@);
        Ok(texts)
    }

    /// Prints the clauses of an if-then expression.
    fn print_clauses(&self, ifs: &[IfClause]) -> (r: Result<Vec<String>, TextPlanError>)
        ensures
            printed_list(r, clauses_texts(ifs@, self.symbol_table@)),
        decreases ifs@, 1int,
    {
        let ghost t = self.symbol_table@;
        let mut texts: Vec<String> = Vec::new();
        let mut i: usize = 0;
        assert(ifs@.take(0) =~= Seq::<IfClause>::empty());
        assert(texts_view(texts@) =~= Seq::<Seq<char>>::empty());
        proof {
            reveal_strlit("MISSING_IF");
            reveal_strlit("MISSING_THEN");
            reveal_strlit(", ");
        }
        while i < ifs.len()
            invariant
                i <= ifs@.len(),
                t == self.symbol_table@,
                clauses_texts(ifs@.take(i as int), t) == Ok::<Seq<Seq<char>>, Seq<char>>(
                    texts_view(texts@),
                ),
            decreases ifs.len() - i,
        {
            let c = &ifs[i];
            assert(ifs@.take(i + 1).drop_last() =~= ifs@.take(i as int));
            assert(ifs@.take(i + 1).last() == *c);
            let x0 = match &c.condition {
                Some(b) => {
                    assert(decreases_to!(ifs@ => **b));
                    match self.print_expr(b) {
                        Ok(x) => x,
                        Err(err) => {
                            assert(clause_text(*c, t) is Err);
                            proof {
                                lemma_clauses_error(ifs@, t, i + 1);
                            }
                            return Err(err);
                        },
                    }
                },
                None => String::from_str("MISSING_IF"),
            };
            let ghost cond = x0@;
            let mut x = x0;
            x.append(", ");
            let y = match &c.result {
                Some(b) => {
                    assert(decreases_to!(ifs@ => **b));
                    match self.print_expr(b) {
                        Ok(y) => y,
                        Err(err) => {
                            assert(clause_text(*c, t) is Err);
                            proof {
                                lemma_clauses_error(ifs@, t, i + 1);
                            }
                            return Err(err);
                        },
                    }
                },
                None => String::from_str("MISSING_THEN"),
            };
            x.append(y.as_str());
            assert(clause_text(*c, t) == Ok::<Seq<char>, Seq<char>>(x@));
            let ghost before = texts@;
            texts.push(x);
            assert(texts_view(texts@) =~= texts_view(before).push(x@));
            i += 1;
        }
        assert(ifs@.take(ifs.len() as int) =~= ifs@);
        Ok(texts)
    }

    /// The arguments of a call joined by `, `.
    fn print_call_arguments(&self, arguments: &[FunctionArgument], args: &[Expression]) -> (r:
        Result<String, TextPlanError>)
        ensures
            printed(r, call_text(arguments@, args@, self.symbol_table@)),
    {
        let mut texts = match self.print_arguments(arguments) {
            Ok(v) => v,
            Err(e) => {
                return Err(e);
            },
        };
        let more = match self.print_expressions(args) {
            Ok(v) => v,
            Err(e) => {
                return Err(e);
            },
        };
        let ghost a = texts_view(texts@);
        let ghost b = texts_view(more@);
        let mut more = more;
        texts.append(&mut more);
        assert(texts_view(texts@) =~= a + b);
        Ok(join_with_commas(texts.as_slice()))
    }

    /// Prints a scalar function call: its name, its arguments and its output type.
    fn print_scalar_function_impl(&self, f: &ScalarFunction) -> (r: Result<String, TextPlanError>)
        ensures
            printed(r, expression_text((Expression { rex_type: Some(RexType::ScalarFunction(*f)) }), self.symbol_table@)),
        decreases *f, 3int,
    {
        let ghost e = Expression { rex_type: Some(RexType::ScalarFunction(*f)) };
        proof {
            reveal_strlit("->");
            reveal_strlit(", ");
        }
        let mut result = self.lookup_function_reference(f.function_reference);
        push_char(&mut result, '(');
        assert(decreases_to!(*f => f.arguments@));
        let texts = match self.print_arguments(f.arguments.as_slice()) {
            Ok(v) => v,
            Err(e) => {
                return Err(e);
            },
        };
        assert(decreases_to!(*f => f.args@));
        let more = match self.print_expressions(f.args.as_slice()) {
            Ok(v) => v,
            Err(e) => {
                return Err(e);
            },
        };
        let mut texts = texts;
        let ghost a = texts_view(texts@);
        let ghost b = texts_view(more@);
        let mut more = more;
        texts.append(&mut more);
        assert(texts_view(texts@) =~= a + b);
        let inner = join_with_commas(texts.as_slice());
        assert(inner@ == comma_joined(a + b));
        result.append(inner.as_str());
        push_char(&mut result, ')');
        let ghost t = self.symbol_table@;
        assert(result@ == function_name_for(t, f.function_reference) + seq!['('] + comma_joined(a + b) + seq![')']);
        match &f.output_type {
            None => {
                assert(expression_text(e, t) == Ok::<Seq<char>, Seq<char>>(result@));
                Ok(result)
            },
            Some(ty) => match print_type_result(ty) {
                Ok(tt) => {
                    result.append("->");
                    result.append(tt.as_str());
                    assert(expression_text(e, t) == Ok::<Seq<char>, Seq<char>>(result@));
                    Ok(result)
                },
                Err(e) => Err(e),
            },
        }
    }

    /// Prints an if-then expression.
    fn print_if_then(&self, it: &IfThen) -> (r: Result<String, TextPlanError>)
        ensures
            printed(r, expression_text((Expression { rex_type: Some(RexType::IfThen(*it)) }), self.symbol_table@)),
        decreases *it, 3int,
    {
        let ghost e = Expression { rex_type: Some(RexType::IfThen(*it)) };
        proof {
            reveal_strlit("IFTHEN(");
            reveal_strlit(", ");
        }
        assert(decreases_to!(*it => it.ifs@));
        let clauses = match self.print_clauses(it.ifs.as_slice()) {
            Ok(v) => v,
            Err(e) => {
                return Err(e);
            },
        };
        let ghost cs = texts_view(clauses@);
        assert(clauses_texts(it.ifs@, self.symbol_table@) == Ok::<Seq<Seq<char>>, Seq<char>>(cs));
        let mut result = String::from_str("IFTHEN(");
        let joined = join_with_commas(clauses.as_slice());
        result.append(joined.as_str());
        assert(result@ == "IFTHEN("@ + comma_joined(cs));
        match &it.otherwise {
            None => {
                push_char(&mut result, ')');
                assert(result@ == "IFTHEN("@ + comma_joined(cs) + seq![')']);
            },
            Some(b) => {
                let x = match self.print_expr(b) {
                    Ok(x) => x,
                    Err(e) => {
                        return Err(e);
                    },
                };
                assert(expression_text(**b, self.symbol_table@) == Ok::<Seq<char>, Seq<char>>(x@));
                if clauses.len() > 0 {
                    result.append(", ");
                }
                result.append(x.as_str());
                push_char(&mut result, ')');
                assert(result@ == "IFTHEN("@ + comma_joined(cs) + (if cs.len() > 0 {
                    ", "@
                } else {
                    Seq::<char>::empty()
                }) + x@ + seq![')']);
            },
        }
        assert(expression_text(e, self.symbol_table@) == Ok::<Seq<char>, Seq<char>>(result@));
        Ok(result)
    }

    /// Prints a cast expression.
    fn print_cast(&self, c: &Cast) -> (r: Result<String, TextPlanError>)
        ensures
            printed(r, expression_text((Expression { rex_type: Some(RexType::Cast(Box::new(*c))) }), self.symbol_table@)),
        decreases *c, 3int,
    {
        let ghost e = Expression { rex_type: Some(RexType::Cast(Box::new(*c))) };
        proof {
            reveal_strlit("MISSING_CAST_INPUT");
            reveal_strlit("MISSING_CAST_TYPE");
            reveal_strlit(" AS ");
        }
        let mut result = match &c.input {
            Some(b) => match self.print_expr(b) {
                Ok(x) => x,
                Err(e) => {
                    return Err(e);
                },
            },
            None => String::from_str("MISSING_CAST_INPUT"),
        };
        result.append(" AS ");
        match &c.target {
            Some(ty) => match print_type_result(ty) {
                Ok(tt) => {
                    result.append(tt.as_str());
                },
                Err(e) => {
                    return Err(e);
                },
            },
            None => {
                result.append("MISSING_CAST_TYPE");
            },
        }
        assert(expression_text(e, self.symbol_table@) == Ok::<Seq<char>, Seq<char>>(result@));
        Ok(result)
    }

    /// Prints an expression.
    fn print_expr(&self, expr: &Expression) -> (r: Result<String, TextPlanError>)
        ensures
            printed(r, expression_text(*expr, self.symbol_table@)),
        decreases *expr, 2int,
    {
        proof {
            reveal_strlit("Expression has no rex_type");
            reveal_strlit("->");
            reveal_strlit("IFTHEN(");
            reveal_strlit(", ");
            reveal_strlit("MISSING_CAST_INPUT");
            reveal_strlit("MISSING_CAST_TYPE");
            reveal_strlit(" AS ");
        }
        match &expr.rex_type {
            None => Err(TextPlanError::InvalidExpression(String::from_str("Expression has no rex_type"))),
            Some(RexType::Literal(l)) => {
                let r = print_literal(l);
                assert(printed(r, expression_text(*expr, self.symbol_table@)));
                r
            },
            Some(RexType::ScalarFunction(f)) => self.print_scalar_function_impl(f),
            Some(RexType::WindowFunction) => {
                let r = Ok(String::from_str("WINDOW_FUNCTION_NOT_YET_IMPLEMENTED"));
                proof {
                    reveal_strlit("WINDOW_FUNCTION_NOT_YET_IMPLEMENTED");
                }
                assert(printed(r, expression_text(*expr, self.symbol_table@)));
                r
            },
            Some(RexType::IfThen(it)) => self.print_if_then(it),
            Some(RexType::SwitchExpression) => {
                let r = Ok(String::from_str("SWITCH_EXPRESSION_NOT_YET_IMPLEMENTED"));
                proof {
                    reveal_strlit("SWITCH_EXPRESSION_NOT_YET_IMPLEMENTED");
                }
                assert(printed(r, expression_text(*expr, self.symbol_table@)));
                r
            },
            Some(RexType::SingularOrList) => {
                let r = Ok(String::from_str("SINGULAR_OR_LIST_NOT_YET_IMPLEMENTED"));
                proof {
                    reveal_strlit("SINGULAR_OR_LIST_NOT_YET_IMPLEMENTED");
                }
                assert(printed(r, expression_text(*expr, self.symbol_table@)));
                r
            },
            Some(RexType::MultiOrList) => {
                let r = Ok(String::from_str("MULTI_OR_LIST_NOT_YET_IMPLEMENTED"));
                proof {
                    reveal_strlit("MULTI_OR_LIST_NOT_YET_IMPLEMENTED");
                }
                assert(printed(r, expression_text(*expr, self.symbol_table@)));
                r
            },
            Some(RexType::Cast(c)) => self.print_cast(c),
            Some(RexType::Nested) => {
                let r = Ok(String::from_str("NESTED_NOT_YET_IMPLEMENTED"));
                proof {
                    reveal_strlit("NESTED_NOT_YET_IMPLEMENTED");
                }
                assert(printed(r, expression_text(*expr, self.symbol_table@)));
                r
            },
            Some(RexType::Enum) => {
                let r = Ok(String::from_str("ENUM_NOT_YET_IMPLEMENTED"));
                proof {
                    reveal_strlit("ENUM_NOT_YET_IMPLEMENTED");
                }
                assert(printed(r, expression_text(*expr, self.symbol_table@)));
                r
            },
            Some(RexType::DynamicParameter) => {
                let r = Ok(String::from_str("DYNAMIC_PARAMETER_NOT_YET_IMPLEMENTED"));
                proof {
                    reveal_strlit("DYNAMIC_PARAMETER_NOT_YET_IMPLEMENTED");
                }
                assert(printed(r, expression_text(*expr, self.symbol_table@)));
                r
            },
        }
    }
}

} // verus!
