//! The textplan spelling of literals.

use vstd::prelude::*;

use crate::proto::{Literal, LiteralType};
use crate::textplan::common::text_scan::{all_digits, is_digit, parsed_int};
use crate::textplan::parser::visitors::relation_visitor::typed_number_literal;
use crate::textplan::common::error::TextPlanError;
use crate::textplan::common::string_utils::{escape_string, escaped, hex_digit};
use crate::textplan::common::text_format::{
    decimal,
    lemma_decimal_digits,
    push_decimal,
    push_signed_decimal,
    signed_decimal,
};
use crate::textplan::common::text_ops::push_char;

verus! {

/// The two lower-case hexadecimal digits of a byte (`format!("{:02x}", b)`).
pub open spec fn hex_byte(b: u8) -> Seq<char> {
    seq![hex_digit((b / 16) as u32), hex_digit((b % 16) as u32)]
}

/// The hexadecimal digits of a sequence of bytes, two per byte.
pub open spec fn hex_bytes(bytes: Seq<u8>) -> Seq<char>
    decreases bytes.len(),
{
    if bytes.len() == 0 {
        Seq::empty()
    } else {
        hex_bytes(bytes.drop_last()) + hex_byte(bytes.last())
    }
}

/// The unsigned value of bytes read least significant first.
pub open spec fn le_value(bytes: Seq<u8>) -> nat
    decreases bytes.len(),
{
    if bytes.len() == 0 {
        0
    } else {
        bytes[0] as nat + 256 * le_value(bytes.drop_first())
    }
}

/// The sixteen bytes of a decimal's value: its first sixteen, padded with zeros.
pub open spec fn decimal_bytes(value: Seq<u8>) -> Seq<u8> {
    if value.len() >= 16 {
        value.take(16)
    } else {
        value + Seq::new((16 - value.len()) as nat, |i: int| 0u8)
    }
}

/// The signed 128-bit number whose two's complement little-endian bytes these are.
pub open spec fn i128_from_le(bytes: Seq<u8>) -> int {
    let u = le_value(bytes);
    if u >= 0x8000_0000_0000_0000_0000_0000_0000_0000 {
        u - 0x1_0000_0000_0000_0000_0000_0000_0000_0000
    } else {
        u as int
    }
}

/// A text between double quotes.
pub open spec fn quoted(t: Seq<char>) -> Seq<char> {
    seq!['"'] + t + seq!['"']
}

/// The textplan spelling of a literal value, without its nullability mark.
pub open spec fn literal_value_text(t: LiteralType) -> Seq<char> {
    match t {
        LiteralType::Boolean(b) => if b {
            "true"@
        } else {
            "false"@
        },
        LiteralType::I8(v) => signed_decimal(v as int) + "_i8"@,
        LiteralType::I16(v) => signed_decimal(v as int) + "_i16"@,
        LiteralType::I32(v) => signed_decimal(v as int) + "_i32"@,
        LiteralType::I64(v) => signed_decimal(v as int) + "_i64"@,
        LiteralType::Fp32(text) => text@ + "_fp32"@,
        LiteralType::Fp64(text) => text@ + "_fp64"@,
        LiteralType::String(s) => quoted(escaped(s@)),
        LiteralType::Binary => "BINARY_LITERAL_NOT_YET_IMPLEMENTED"@,
        LiteralType::Timestamp => "TIMESTAMP_LITERAL_NOT_YET_IMPLEMENTED"@,
        LiteralType::Date(days) => signed_decimal(days as int) + "_date"@,
        LiteralType::Time(micros) => signed_decimal(micros as int) + "_time"@,
        LiteralType::IntervalYearToMonth { years, months } => if months != 0 {
            seq!['{'] + signed_decimal(years as int) + ", "@ + signed_decimal(months as int)
                + "}_interval_year_month"@
        } else {
            signed_decimal(years as int) + "_interval_year"@
        },
        LiteralType::IntervalDayToSecond { days, seconds, subseconds, microseconds } => {
            let micros: i32 = match microseconds {
                Some(m) => m,
                None => subseconds as i32,
            };
            seq!['{'] + signed_decimal(days as int) + ", "@ + signed_decimal(seconds as int)
                + ", "@ + signed_decimal(micros as int) + "}_interval_day_second"@
        },
        LiteralType::FixedChar(s) => quoted(escaped(s@)) + "_fixedchar"@,
        LiteralType::VarChar { value, length } => if value@.len() > 0 {
            quoted(escaped(value@)) + "_varchar"@
        } else if length > 0 {
            "\"\"_varchar<"@ + decimal(length as nat) + seq!['>']
        } else {
            "\"\"_varchar"@
        },
        LiteralType::FixedBinary(bytes) => "0x"@ + hex_bytes(bytes@) + "_fixedbinary"@,
        LiteralType::Decimal { value, precision, scale } => signed_decimal(
            i128_from_le(decimal_bytes(value@)),
        ) + "_decimal<"@ + signed_decimal(precision as int) + seq![','] + signed_decimal(
            scale as int,
        ) + seq!['>'],
        LiteralType::Struct => "STRUCT_LITERAL_NOT_YET_IMPLEMENTED"@,
        LiteralType::KeyValueMap => "MAP_LITERAL_NOT_YET_IMPLEMENTED"@,
        LiteralType::TimestampTz => "TIMESTAMP_TZ_LITERAL_NOT_YET_IMPLEMENTED"@,
        LiteralType::Uuid => "UUID_LITERAL_NOT_YET_IMPLEMENTED"@,
        LiteralType::Null => "NULL"@,
        LiteralType::List => "LIST_LITERAL_NOT_YET_IMPLEMENTED"@,
        LiteralType::EmptyList => "EMPTY_LIST_LITERAL_NOT_YET_IMPLEMENTED"@,
        LiteralType::EmptyMap => "EMPTY_MAP_LITERAL_NOT_YET_IMPLEMENTED"@,
        LiteralType::UserDefined => "USER_DEFINED_LITERAL_NOT_YET_IMPLEMENTED"@,
        LiteralType::IntervalCompound => "INTERVAL_COMPOUND_LITERAL_NOT_YET_IMPLEMENTED"@,
        LiteralType::PrecisionTime => "PRECISION_TIME_LITERAL_NOT_YET_IMPLEMENTED"@,
        LiteralType::PrecisionTimestamp => "PRECISION_TIMESTAMP_LITERAL_NOT_YET_IMPLEMENTED"@,
        LiteralType::PrecisionTimestampTz => "PRECISION_TIMESTAMP_TZ_LITERAL_NOT_YET_IMPLEMENTED"@,
    }
}

/// The textplan spelling of a literal, with `?` after a nullable one; a literal without a
/// value is an error with this message.
pub open spec fn literal_text(l: Literal) -> Result<Seq<char>, Seq<char>> {
    match l.literal_type {
        None => Err("Literal has no literal_type"@),
        Some(t) => Ok(
            literal_value_text(t) + if l.nullable {
                seq!['?']
            } else {
                Seq::empty()
            },
        ),
    }
}

/// The hexadecimal digit character for `d` (`d < 16`).
fn hex_digit_char(d: u8) -> (r: char)
    requires
        d < 16,
    ensures
        r == hex_digit(d as u32),
{
    if d < 10 {
        (48 + d) as char
    } else {
        (87 + d) as char
    }
}

/// Appends two hexadecimal digits per byte.
fn push_hex_bytes(out: &mut String, bytes: &[u8])
    ensures
        final(out)@ == old(out)@ + hex_bytes(bytes@),
{
    let mut i: usize = 0;
    while i < bytes.len()
        invariant
            i <= bytes.len(),
            out@ == old(out)@ + hex_bytes(bytes@.take(i as int)),
        decreases bytes.len() - i,
    {
        let b = bytes[i];
        push_char(out, hex_digit_char(b / 16));
        push_char(out, hex_digit_char(b % 16));
        assert(bytes@.take(i + 1).drop_last() =~= bytes@.take(i as int));
        assert(out@ =~= old(out)@ + hex_bytes(bytes@.take(i + 1)));
        i += 1;
    }
    assert(bytes@.take(bytes.len() as int) =~= bytes@);
}

/// The powers of 256.
spec fn pow256(n: nat) -> nat
    decreases n,
{
    if n == 0 {
        1
    } else {
        256 * pow256((n - 1) as nat)
    }
}

proof fn lemma_le_value_step(bytes: Seq<u8>, k: int)
    requires
        0 <= k < bytes.len(),
    ensures
        le_value(bytes.skip(k)) == bytes[k] as nat + 256 * le_value(bytes.skip(k + 1)),
{
    assert(bytes.skip(k).drop_first() =~= bytes.skip(k + 1));
}

/// Appends the decimal form of the signed 128-bit number whose little-endian bytes are the
/// first sixteen of `value`, padded with zeros.
fn push_decimal_value(out: &mut String, value: &[u8])
    ensures
        final(out)@ == old(out)@ + signed_decimal(i128_from_le(decimal_bytes(value@))),
{
    let ghost bytes = decimal_bytes(value@);
    let mut acc: u128 = 0;
    let mut k: usize = 16;
    assert(bytes.skip(16) =~= Seq::<u8>::empty());
    proof {
        reveal_with_fuel(pow256, 17);
        assert(pow256(16) == 0x1_0000_0000_0000_0000_0000_0000_0000_0000);
    }
    while k > 0
        invariant
            k <= 16,
            bytes == decimal_bytes(value@),
            bytes.len() == 16,
            acc as nat == le_value(bytes.skip(k as int)),
            (acc as nat) < pow256((16 - k) as nat),
            pow256(16) == 0x1_0000_0000_0000_0000_0000_0000_0000_0000,
        decreases k,
    {
        k -= 1;
        let b: u8 = if k < value.len() {
            value[k]
        } else {
            0
        };
        assert(b == bytes[k as int]);
        proof {
            lemma_le_value_step(bytes, k as int);
            let p = pow256((15 - k) as nat);
            assert(pow256((16 - k) as nat) == 256 * p);
            assert((acc as nat) * 256 + (b as nat) < 256 * p) by (nonlinear_arith)
                requires
                    (acc as nat) < p,
                    (b as nat) < 256,
            ;
            lemma_pow256_bound((16 - k) as nat);
        }
        acc = acc * 256 + b as u128;
    }
    assert(bytes.skip(0) =~= bytes);
    if acc >= 0x8000_0000_0000_0000_0000_0000_0000_0000u128 {
        push_char(out, '-');
        let magnitude = (u128::MAX - acc) + 1;
        push_decimal(out, magnitude);
        assert(final(out)@ =~= old(out)@ + signed_decimal(i128_from_le(bytes)));
    } else {
        push_decimal(out, acc);
    }
}

proof fn lemma_pow256_bound(n: nat)
    requires
        n <= 16,
    ensures
        pow256(n) <= pow256(16),
    decreases 16 - n,
{
    if n < 16 {
        lemma_pow256_bound(n + 1);
    }
}

/// Appends a string's escaped form between an extra pair of double quotes.
fn push_quoted_escaped(out: &mut String, s: &str)
    ensures
        final(out)@ == old(out)@ + quoted(escaped(s@)),
{
    push_char(out, '"');
    let e = escape_string(s);
    out.append(e.as_str());
    push_char(out, '"');
    assert(final(out)@ =~= old(out)@ + quoted(escaped(s@)));
}

/// Prints a literal: its value in the textplan spelling, then `?` if it is nullable.
pub fn print_literal(literal: &Literal) -> (r: Result<String, TextPlanError>)
    ensures
        literal_text(*literal) matches Ok(t) ==> r matches Ok(s) && s@ == t,
        literal_text(*literal) matches Err(m) ==> r matches Err(
            TextPlanError::InvalidExpression(e),
        ) && e@ == m,
{
    let mut result = String::new();
    match &literal.literal_type {
        None => {
            return Err(TextPlanError::InvalidExpression(String::from_str("Literal has no literal_type")));
        },
        Some(t) => {
            push_literal_value(&mut result, t);
        },
    }
    if literal.nullable {
        push_char(&mut result, '?');
    }
    Ok(result)
}

/// Appends the textplan spelling of a literal value.
fn push_literal_value(out: &mut String, t: &LiteralType)
    ensures
        final(out)@ == old(out)@ + literal_value_text(*t),
{
    proof {
        reveal_strlit("true");
        reveal_strlit("false");
        reveal_strlit("_i8");
        reveal_strlit("_i16");
        reveal_strlit("_i32");
        reveal_strlit("_i64");
        reveal_strlit("_fp32");
        reveal_strlit("_fp64");
        reveal_strlit("_date");
        reveal_strlit("_time");
        reveal_strlit(", ");
        reveal_strlit("}_interval_year_month");
        reveal_strlit("_interval_year");
        reveal_strlit("}_interval_day_second");
        reveal_strlit("_fixedchar");
        reveal_strlit("_varchar");
        reveal_strlit("\"\"_varchar<");
        reveal_strlit("\"\"_varchar");
        reveal_strlit("0x");
        reveal_strlit("_fixedbinary");
        reveal_strlit("_decimal<");
    }
    match t {
        LiteralType::Boolean(b) => {
            out.append(if *b { "true" } else { "false" });
        },
        LiteralType::I8(v) => {
            push_signed_decimal(out, *v as i64);
            out.append("_i8");
        },
        LiteralType::I16(v) => {
            push_signed_decimal(out, *v as i64);
            out.append("_i16");
        },
        LiteralType::I32(v) => {
            push_signed_decimal(out, *v as i64);
            out.append("_i32");
        },
        LiteralType::I64(v) => {
            push_signed_decimal(out, *v);
            out.append("_i64");
        },
        LiteralType::Fp32(text) => {
            out.append(text.as_str());
            out.append("_fp32");
        },
        LiteralType::Fp64(text) => {
            out.append(text.as_str());
            out.append("_fp64");
        },
        LiteralType::String(s) => {
            push_quoted_escaped(out, s.as_str());
        },
        LiteralType::Binary => {
            out.append("BINARY_LITERAL_NOT_YET_IMPLEMENTED");
        },
        LiteralType::Timestamp => {
            out.append("TIMESTAMP_LITERAL_NOT_YET_IMPLEMENTED");
        },
        LiteralType::Date(days) => {
            push_signed_decimal(out, *days as i64);
            out.append("_date");
        },
        LiteralType::Time(micros) => {
            push_signed_decimal(out, *micros);
            out.append("_time");
        },
        LiteralType::IntervalYearToMonth { years, months } => {
            if *months != 0 {
                push_char(out, '{');
                push_signed_decimal(out, *years as i64);
                out.append(", ");
                push_signed_decimal(out, *months as i64);
                out.append("}_interval_year_month");
            } else {
                push_signed_decimal(out, *years as i64);
                out.append("_interval_year");
            }
        },
        LiteralType::IntervalDayToSecond { days, seconds, subseconds, microseconds } => {
            let micros: i32 = match microseconds {
                Some(m) => *m,
                None => *subseconds as i32,
            };
            push_char(out, '{');
            push_signed_decimal(out, *days as i64);
            out.append(", ");
            push_signed_decimal(out, *seconds as i64);
            out.append(", ");
            push_signed_decimal(out, micros as i64);
            out.append("}_interval_day_second");
        },
        LiteralType::FixedChar(s) => {
            push_quoted_escaped(out, s.as_str());
            out.append("_fixedchar");
        },
        LiteralType::VarChar { value, length } => {
            if value.as_str().unicode_len() > 0 {
                push_quoted_escaped(out, value.as_str());
                out.append("_varchar");
            } else if *length > 0 {
                out.append("\"\"_varchar<");
                push_decimal(out, *length as u128);
                push_char(out, '>');
            } else {
                out.append("\"\"_varchar");
            }
        },
        LiteralType::FixedBinary(bytes) => {
            out.append("0x");
            push_hex_bytes(out, bytes.as_slice());
            out.append("_fixedbinary");
        },
        LiteralType::Decimal { value, precision, scale } => {
            push_decimal_value(out, value.as_slice());
            out.append("_decimal<");
            push_signed_decimal(out, *precision as i64);
            push_char(out, ',');
            push_signed_decimal(out, *scale as i64);
            push_char(out, '>');
        },
        LiteralType::Struct => {
            out.append("STRUCT_LITERAL_NOT_YET_IMPLEMENTED");
        },
        LiteralType::KeyValueMap => {
            out.append("MAP_LITERAL_NOT_YET_IMPLEMENTED");
        },
        LiteralType::TimestampTz => {
            out.append("TIMESTAMP_TZ_LITERAL_NOT_YET_IMPLEMENTED");
        },
        LiteralType::Uuid => {
            out.append("UUID_LITERAL_NOT_YET_IMPLEMENTED");
        },
        LiteralType::Null => {
            out.append("NULL");
        },
        LiteralType::List => {
            out.append("LIST_LITERAL_NOT_YET_IMPLEMENTED");
        },
        LiteralType::EmptyList => {
            out.append("EMPTY_LIST_LITERAL_NOT_YET_IMPLEMENTED");
        },
        LiteralType::EmptyMap => {
            out.append("EMPTY_MAP_LITERAL_NOT_YET_IMPLEMENTED");
        },
        LiteralType::UserDefined => {
            out.append("USER_DEFINED_LITERAL_NOT_YET_IMPLEMENTED");
        },
        LiteralType::IntervalCompound => {
            out.append("INTERVAL_COMPOUND_LITERAL_NOT_YET_IMPLEMENTED");
        },
        LiteralType::PrecisionTime => {
            out.append("PRECISION_TIME_LITERAL_NOT_YET_IMPLEMENTED");
        },
        LiteralType::PrecisionTimestamp => {
            out.append("PRECISION_TIMESTAMP_LITERAL_NOT_YET_IMPLEMENTED");
        },
        LiteralType::PrecisionTimestampTz => {
            out.append("PRECISION_TIMESTAMP_TZ_LITERAL_NOT_YET_IMPLEMENTED");
        },
    }
}

/// The decimal text of an integer in `lo ..= hi` reads back as that integer.
proof fn lemma_signed_decimal_reads(v: int, lo: int, hi: int)
    requires
        lo <= v <= hi,
        lo <= 0,
    ensures
        parsed_int(signed_decimal(v), lo, hi) == Some(v),
{
    let d = signed_decimal(v);
    if v < 0 {
        lemma_decimal_digits((-v) as nat);
        assert(d.drop_first() =~= decimal((-v) as nat));
        assert(!is_digit(d[0]));
        assert(!all_digits(d));
    } else {
        lemma_decimal_digits(v as nat);
    }
}

proof fn lemma_i8_literal_reads_back(v: i32)
    ensures
        literal_value_text(LiteralType::I8(v)) == signed_decimal(v as int) + seq!['_'] + "i8"@,
        typed_number_literal(signed_decimal(v as int), "i8"@, None, None, None, LiteralType::I8(v)),
{
    reveal_strlit("i8");
    reveal_strlit("date");
    assert("i8"@ != "date"@) by {
        assert("i8"@.len() != "date"@.len());
    }
    reveal_strlit("time");
    assert("i8"@ != "time"@) by {
        assert("i8"@.len() != "time"@.len());
    }
    reveal_strlit("interval_year");
    assert("i8"@ != "interval_year"@) by {
        assert("i8"@.len() != "interval_year"@.len());
    }
    reveal_strlit("interval_year_month");
    assert("i8"@ != "interval_year_month"@) by {
        assert("i8"@.len() != "interval_year_month"@.len());
    }
    reveal_strlit("decimal");
    assert("i8"@ != "decimal"@) by {
        assert("i8"@.len() != "decimal"@.len());
    }
    lemma_signed_decimal_reads(v as int, i32::MIN as int, i32::MAX as int);
    reveal_strlit("_i8");
    assert("_i8"@ =~= seq!['_'] + "i8"@);
}

proof fn lemma_i16_literal_reads_back(v: i32)
    ensures
        literal_value_text(LiteralType::I16(v)) == signed_decimal(v as int) + seq!['_'] + "i16"@,
        typed_number_literal(signed_decimal(v as int), "i16"@, None, None, None, LiteralType::I16(v)),
{
    reveal_strlit("i16");
    reveal_strlit("date");
    assert("i16"@ != "date"@) by {
        assert("i16"@.len() != "date"@.len());
    }
    reveal_strlit("time");
    assert("i16"@ != "time"@) by {
        assert("i16"@.len() != "time"@.len());
    }
    reveal_strlit("interval_year");
    assert("i16"@ != "interval_year"@) by {
        assert("i16"@.len() != "interval_year"@.len());
    }
    reveal_strlit("interval_year_month");
    assert("i16"@ != "interval_year_month"@) by {
        assert("i16"@.len() != "interval_year_month"@.len());
    }
    reveal_strlit("decimal");
    assert("i16"@ != "decimal"@) by {
        assert("i16"@.len() != "decimal"@.len());
    }
    reveal_strlit("i8");
    assert("i16"@ != "i8"@) by {
        assert("i16"@.len() != "i8"@.len());
    }
    lemma_signed_decimal_reads(v as int, i32::MIN as int, i32::MAX as int);
    reveal_strlit("_i16");
    assert("_i16"@ =~= seq!['_'] + "i16"@);
}

proof fn lemma_i32_literal_reads_back(v: i32)
    ensures
        literal_value_text(LiteralType::I32(v)) == signed_decimal(v as int) + seq!['_'] + "i32"@,
        typed_number_literal(signed_decimal(v as int), "i32"@, None, None, None, LiteralType::I32(v)),
{
    reveal_strlit("i32");
    reveal_strlit("date");
    assert("i32"@ != "date"@) by {
        assert("i32"@.len() != "date"@.len());
    }
    reveal_strlit("time");
    assert("i32"@ != "time"@) by {
        assert("i32"@.len() != "time"@.len());
    }
    reveal_strlit("interval_year");
    assert("i32"@ != "interval_year"@) by {
        assert("i32"@.len() != "interval_year"@.len());
    }
    reveal_strlit("interval_year_month");
    assert("i32"@ != "interval_year_month"@) by {
        assert("i32"@.len() != "interval_year_month"@.len());
    }
    reveal_strlit("decimal");
    assert("i32"@ != "decimal"@) by {
        assert("i32"@.len() != "decimal"@.len());
    }
    reveal_strlit("i8");
    assert("i32"@ != "i8"@) by {
        assert("i32"@.len() != "i8"@.len());
    }
    reveal_strlit("i16");
    assert("i32"@ != "i16"@) by {
        assert("i32"@[1] != "i16"@[1]);
    }
    lemma_signed_decimal_reads(v as int, i32::MIN as int, i32::MAX as int);
    reveal_strlit("_i32");
    assert("_i32"@ =~= seq!['_'] + "i32"@);
}

proof fn lemma_i64_literal_reads_back(w: i64)
    ensures
        literal_value_text(LiteralType::I64(w)) == signed_decimal(w as int) + seq!['_'] + "i64"@,
        typed_number_literal(signed_decimal(w as int), "i64"@, None, None, None, LiteralType::I64(w)),
{
    reveal_strlit("i64");
    reveal_strlit("date");
    assert("i64"@ != "date"@) by {
        assert("i64"@.len() != "date"@.len());
    }
    reveal_strlit("time");
    assert("i64"@ != "time"@) by {
        assert("i64"@.len() != "time"@.len());
    }
    reveal_strlit("interval_year");
    assert("i64"@ != "interval_year"@) by {
        assert("i64"@.len() != "interval_year"@.len());
    }
    reveal_strlit("interval_year_month");
    assert("i64"@ != "interval_year_month"@) by {
        assert("i64"@.len() != "interval_year_month"@.len());
    }
    reveal_strlit("decimal");
    assert("i64"@ != "decimal"@) by {
        assert("i64"@.len() != "decimal"@.len());
    }
    reveal_strlit("i8");
    assert("i64"@ != "i8"@) by {
        assert("i64"@.len() != "i8"@.len());
    }
    reveal_strlit("i16");
    assert("i64"@ != "i16"@) by {
        assert("i64"@[1] != "i16"@[1]);
    }
    reveal_strlit("i32");
    assert("i64"@ != "i32"@) by {
        assert("i64"@[1] != "i32"@[1]);
    }
    lemma_signed_decimal_reads(w as int, i64::MIN as int, i64::MAX as int);
    reveal_strlit("_i64");
    assert("_i64"@ =~= seq!['_'] + "i64"@);
}

proof fn lemma_date_literal_reads_back(v: i32)
    ensures
        literal_value_text(LiteralType::Date(v)) == signed_decimal(v as int) + seq!['_'] + "date"@,
        typed_number_literal(signed_decimal(v as int), "date"@, None, None, None, LiteralType::Date(v)),
{
    reveal_strlit("date");
    lemma_signed_decimal_reads(v as int, i32::MIN as int, i32::MAX as int);
    reveal_strlit("_date");
    assert("_date"@ =~= seq!['_'] + "date"@);
}

proof fn lemma_time_literal_reads_back(w: i64)
    ensures
        literal_value_text(LiteralType::Time(w)) == signed_decimal(w as int) + seq!['_'] + "time"@,
        typed_number_literal(signed_decimal(w as int), "time"@, None, None, None, LiteralType::Time(w)),
{
    reveal_strlit("time");
    reveal_strlit("date");
    assert("time"@ != "date"@) by {
        assert("time"@[0] != "date"@[0]);
    }
    lemma_signed_decimal_reads(w as int, i64::MIN as int, i64::MAX as int);
    reveal_strlit("_time");
    assert("_time"@ =~= seq!['_'] + "time"@);
}

proof fn lemma_interval_year_literal_reads_back(v: i32)
    ensures
        literal_value_text(LiteralType::IntervalYearToMonth { years: v, months: 0 }) == signed_decimal(v as int) + seq!['_'] + "interval_year"@,
        typed_number_literal(signed_decimal(v as int), "interval_year"@, None, None, None, LiteralType::IntervalYearToMonth { years: v, months: 0 }),
{
    reveal_strlit("interval_year");
    reveal_strlit("date");
    assert("interval_year"@ != "date"@) by {
        assert("interval_year"@.len() != "date"@.len());
    }
    reveal_strlit("time");
    assert("interval_year"@ != "time"@) by {
        assert("interval_year"@.len() != "time"@.len());
    }
    lemma_signed_decimal_reads(v as int, i32::MIN as int, i32::MAX as int);
    reveal_strlit("_interval_year");
    assert("_interval_year"@ =~= seq!['_'] + "interval_year"@);
}

/// A number literal prints as its value, `_` and the name of its own kind, and reading that
/// value with that suffix gives the same literal back: `i8`, `i16`, `i32` and `i64` integers,
/// dates (`_date`), times (`_time`) and year intervals without months (`_interval_year`).
pub proof fn lemma_number_literal_suffix_reads_back(v: i32, w: i64)
    ensures
        literal_value_text(LiteralType::I8(v)) == signed_decimal(v as int) + seq!['_'] + "i8"@,
        typed_number_literal(signed_decimal(v as int), "i8"@, None, None, None, LiteralType::I8(v)),
        literal_value_text(LiteralType::I16(v)) == signed_decimal(v as int) + seq!['_'] + "i16"@,
        typed_number_literal(signed_decimal(v as int), "i16"@, None, None, None, LiteralType::I16(v)),
        literal_value_text(LiteralType::I32(v)) == signed_decimal(v as int) + seq!['_'] + "i32"@,
        typed_number_literal(signed_decimal(v as int), "i32"@, None, None, None, LiteralType::I32(v)),
        literal_value_text(LiteralType::I64(w)) == signed_decimal(w as int) + seq!['_'] + "i64"@,
        typed_number_literal(signed_decimal(w as int), "i64"@, None, None, None, LiteralType::I64(w)),
        literal_value_text(LiteralType::Date(v)) == signed_decimal(v as int) + seq!['_'] + "date"@,
        typed_number_literal(signed_decimal(v as int), "date"@, None, None, None, LiteralType::Date(v)),
        literal_value_text(LiteralType::Time(w)) == signed_decimal(w as int) + seq!['_'] + "time"@,
        typed_number_literal(signed_decimal(w as int), "time"@, None, None, None, LiteralType::Time(w)),
        literal_value_text(LiteralType::IntervalYearToMonth { years: v, months: 0 }) == signed_decimal(v as int) + seq!['_'] + "interval_year"@,
        typed_number_literal(signed_decimal(v as int), "interval_year"@, None, None, None, LiteralType::IntervalYearToMonth { years: v, months: 0 }),
{
    lemma_i8_literal_reads_back(v);
    lemma_i16_literal_reads_back(v);
    lemma_i32_literal_reads_back(v);
    lemma_i64_literal_reads_back(w);
    lemma_date_literal_reads_back(v);
    lemma_time_literal_reads_back(w);
    lemma_interval_year_literal_reads_back(v);
}

} // verus!
