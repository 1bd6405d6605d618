//! The pass over a parsed textplan that builds the content of each relation.

use vstd::prelude::*;

use crate::textplan::common::text_location::TextLocation;
use crate::textplan::common::text_ops::{lowercased, to_lowercase};
use crate::proto::{Expression, Literal, LiteralType, RexType};
use crate::textplan::common::text_scan::{
    ends_with, has_prefix, has_suffix, parse_i128, parse_i32, parse_i64, parsed_int, starts_with,
    text_equals,
};
use crate::textplan::parser::error_listener::{ErrorListener, ParseErrorView};
use crate::textplan::parser::visitors::PlanVisitor;
use crate::textplan::common::text_ops::texts_view;
use crate::textplan::symbol_table::with_blob;
use crate::textplan::symbol_table::{
    symbol_as_ref,
    symbol_ref_view_opt,
    symbol_view_opt,
    BlobView,
    SymbolBlob,
    SymbolInfo,
    SymbolInfoView,
    SymbolTable,
    SymbolType,
};

verus! {

/// The code of the sort direction "ascending, nulls first" (`SortDirection::AscNullsFirst`).
pub const SORT_ASC_NULLS_FIRST: i32 = 1;

/// The code of the sort direction "ascending, nulls last" (`SortDirection::AscNullsLast`).
pub const SORT_ASC_NULLS_LAST: i32 = 2;

/// The code of the sort direction "descending, nulls first" (`SortDirection::DescNullsFirst`).
pub const SORT_DESC_NULLS_FIRST: i32 = 3;

/// The code of the sort direction "descending, nulls last" (`SortDirection::DescNullsLast`).
pub const SORT_DESC_NULLS_LAST: i32 = 4;

/// The code of the sort direction "clustered" (`SortDirection::Clustered`).
pub const SORT_CLUSTERED: i32 = 5;

/// The anchor of the first function symbol of `table` with this name that carries the
/// data of a function; zero where there is none.
pub open spec fn function_anchor_for(table: Seq<SymbolInfoView>, name: Seq<char>) -> u32
    decreases table.len(),
{
    if table.len() == 0 {
        0
    } else if table[0].symbol_type == SymbolType::Function && table[0].name == name
        && table[0].blob matches Some(BlobView::Function { .. }) {
        table[0].blob->Some_0->anchor
    } else {
        function_anchor_for(table.drop_first(), name)
    }
}

/// The type suffix of a literal (`literal_basic_type`): the text of its name, where it has
/// one, and the texts of the numbers of its specifier (`<precision,scale>`), where it has
/// one.
#[derive(Debug)]
pub struct BasicTypeSuffix {
    pub id: Option<String>,
    pub specifier: Option<Vec<String>>,
}

/// A constant of a textplan (`constant`), as building a literal reads it.
#[derive(Debug)]
pub enum ConstantNode {
    /// A number, with its type suffix where it has one. The library does not compute with
    /// floating point: `fp32_text` and `fp64_text` are what `str::parse::<f32>` and
    /// `str::parse::<f64>` read of the text, as the display text of the value, where they
    /// read one.
    Number {
        text: String,
        suffix: Option<BasicTypeSuffix>,
        fp32_text: Option<String>,
        fp64_text: Option<String>,
    },
    /// A quoted string, with its type suffix where it has one.
    Text { text: String, suffix: Option<BasicTypeSuffix> },
    /// `true`.
    True,
    /// `false`.
    False,
    /// `null`.
    Null,
    /// A struct of constants, with the text of its complex type where it has one.
    Struct { complex_type: Option<String>, constants: Vec<ConstantNode> },
    /// Any other constant (a map).
    Other,
}

/// An integer read from a text by `str::parse` for the range `lo ..= hi`, or zero where
/// the text is no such integer.
pub open spec fn int_or_zero(text: Seq<char>, lo: int, hi: int) -> int {
    match parsed_int(text, lo, hi) {
        Some(v) => v,
        None => 0,
    }
}

/// The number of a constant of a struct: the `i32` it reads as, or zero.
pub open spec fn constant_number(c: ConstantNode) -> i32 {
    match c {
        ConstantNode::Number { text, .. } => int_or_zero(text@, i32::MIN as int, i32::MAX as int) as i32,
        _ => 0,
    }
}

/// `a / b` rounded toward zero, as Rust divides.
pub open spec fn quotient_toward_zero(a: int, b: int) -> int {
    if a >= 0 {
        a / b
    } else {
        -((-a) / b)
    }
}

/// The remainder of `a / b` rounded toward zero, with the sign of `a`, as Rust takes it.
pub open spec fn remainder_toward_zero(a: int, b: int) -> int {
    if a >= 0 {
        a % b
    } else {
        -((-a) % b)
    }
}

/// The little-endian bytes of the low `n` bytes of `u`.
pub open spec fn le_bytes(u: nat, n: nat) -> Seq<u8>
    decreases n,
{
    if n == 0 {
        Seq::empty()
    } else {
        seq![(u % 256) as u8] + le_bytes(u / 256, (n - 1) as nat)
    }
}

/// The two's complement of a signed 128-bit number, as an unsigned one.
pub open spec fn twos_complement(v: int) -> nat {
    (if v >= 0 {
        v
    } else {
        v + 0x1_0000_0000_0000_0000_0000_0000_0000_0000
    }) as nat
}

/// The numbers of a decimal's specifier that read as `i32`s, in order.
pub open spec fn specifier_numbers(texts: Seq<String>) -> Seq<i32>
    decreases texts.len(),
{
    if texts.len() == 0 {
        Seq::empty()
    } else {
        let r = specifier_numbers(texts.drop_last());
        match parsed_int(texts.last()@, i32::MIN as int, i32::MAX as int) {
            Some(v) => r.push(v as i32),
            None => r,
        }
    }
}

/// The precision and scale of a decimal constant: the first two numbers of its specifier,
/// the first and zero where there is one number, and 38 and zero where there is none.
pub open spec fn decimal_precision_scale(specifier: Option<Vec<String>>) -> (i32, i32) {
    match specifier {
        Some(texts) => {
            let ns = specifier_numbers(texts@);
            if ns.len() >= 2 {
                (ns[0], ns[1])
            } else if ns.len() == 1 {
                (ns[0], 0)
            } else {
                (38, 0)
            }
        },
        None => (38, 0),
    }
}

/// The lower-case name of a type suffix, empty where it has none.
pub open spec fn suffix_name(s: BasicTypeSuffix) -> Seq<char> {
    match s.id {
        Some(id) => lowercased(id@),
        None => Seq::empty(),
    }
}

/// The text of a floating-point value as read, or `0` where none was read.
pub open spec fn float_text(t: Option<String>) -> Seq<char> {
    match t {
        Some(x) => x@,
        None => "0"@,
    }
}

/// Whether `lt` is the literal of a number with this lower-case type name: a date, time or
/// interval, a decimal of its 128-bit two's complement bytes, an integer of the named width,
/// a floating-point number, or else a 64-bit integer; an integer text that does not read
/// counts as zero.
pub open spec fn typed_number_literal(
    text: Seq<char>,
    name: Seq<char>,
    specifier: Option<Vec<String>>,
    fp32_text: Option<String>,
    fp64_text: Option<String>,
    lt: LiteralType,
) -> bool {
    let i32_value = int_or_zero(text, i32::MIN as int, i32::MAX as int);
    let i64_value = int_or_zero(text, i64::MIN as int, i64::MAX as int);
    if name == "date"@ {
        lt == LiteralType::Date(i32_value as i32)
    } else if name == "time"@ {
        lt == LiteralType::Time(i64_value as i64)
    } else if name == "interval_year"@ {
        lt == LiteralType::IntervalYearToMonth { years: i32_value as i32, months: 0 }
    } else if name == "interval_year_month"@ {
        lt == LiteralType::IntervalYearToMonth {
            years: quotient_toward_zero(i32_value, 12) as i32,
            months: remainder_toward_zero(i32_value, 12) as i32,
        }
    } else if name == "decimal"@ {
        match parsed_int(text, i128::MIN as int, i128::MAX as int) {
            Some(v) => lt matches LiteralType::Decimal { value, precision, scale } && value@
                == le_bytes(twos_complement(v), 16) && (precision, scale) == decimal_precision_scale(
                specifier,
            ),
            None => lt matches LiteralType::Decimal { value, precision, scale } && value@ == Seq::new(
                16,
                |i: int| 0u8,
            ) && precision == 38 && scale == 0,
        }
    } else if name == "i8"@ {
        lt == LiteralType::I8(i32_value as i32)
    } else if name == "i16"@ {
        lt == LiteralType::I16(i32_value as i32)
    } else if name == "i32"@ {
        lt == LiteralType::I32(i32_value as i32)
    } else if name == "i64"@ {
        lt == LiteralType::I64(i64_value as i64)
    } else if name == "fp32"@ {
        lt matches LiteralType::Fp32(t) && t@ == float_text(fp32_text)
    } else if name == "fp64"@ {
        lt matches LiteralType::Fp64(t) && t@ == float_text(fp64_text)
    } else {
        lt == LiteralType::I64(i64_value as i64)
    }
}

/// A string constant's text without the double quotes around it, where it has them.
pub open spec fn unquoted_text(t: Seq<char>) -> Seq<char> {
    if has_prefix(t, "\""@) && has_suffix(t, "\""@) {
        t.subrange(1, t.len() - 1)
    } else {
        t
    }
}

/// Whether `lt` is the literal that a constant builds: a number by its type suffix, or
/// as a 32-bit integer where it reads as one and else a 64-bit one; a string, a fixed-size
/// or a variable-size one by its suffix; a boolean; a null; an interval from a struct of
/// numbers with an interval type; and a zero 64-bit integer for anything else.
pub open spec fn literal_of_constant(c: ConstantNode, lt: LiteralType) -> bool {
    match c {
        ConstantNode::Number { text, suffix, fp32_text, fp64_text } => match suffix {
            Some(s) => typed_number_literal(text@, suffix_name(s), s.specifier, fp32_text, fp64_text, lt),
            None => match parsed_int(text@, i32::MIN as int, i32::MAX as int) {
                Some(v) => lt == LiteralType::I32(v as i32),
                None => lt == LiteralType::I64(int_or_zero(text@, i64::MIN as int, i64::MAX as int) as i64),
            },
        },
        ConstantNode::Text { text, suffix } => {
            let v = unquoted_text(text@);
            let name = match suffix {
                Some(s) => match s.id {
                    Some(id) => Some(lowercased(id@)),
                    None => None,
                },
                None => None,
            };
            if name == Some("fixedchar"@) {
                lt matches LiteralType::FixedChar(x) && x@ == v
            } else if name == Some("varchar"@) {
                lt matches LiteralType::VarChar { value, length } && value@ == v && length == 0
            } else {
                lt matches LiteralType::String(x) && x@ == v
            }
        },
        ConstantNode::True => lt == LiteralType::Boolean(true),
        ConstantNode::False => lt == LiteralType::Boolean(false),
        ConstantNode::Null => lt == LiteralType::Null,
        ConstantNode::Struct { complex_type, constants } => match complex_type {
            Some(t) => {
                let name = lowercased(t@);
                let cs = constants@;
                if name == "interval_day_second"@ {
                    if cs.len() >= 3 {
                        lt == LiteralType::IntervalDayToSecond {
                            days: constant_number(cs[0]),
                            seconds: constant_number(cs[1]),
                            subseconds: 0,
                            microseconds: Some(constant_number(cs[2])),
                        }
                    } else {
                        lt == LiteralType::IntervalDayToSecond {
                            days: 0,
                            seconds: 0,
                            subseconds: 0,
                            microseconds: Some(0),
                        }
                    }
                } else if name == "interval_year_month"@ {
                    if cs.len() >= 2 {
                        lt == LiteralType::IntervalYearToMonth {
                            years: constant_number(cs[0]),
                            months: constant_number(cs[1]),
                        }
                    } else {
                        lt == LiteralType::IntervalYearToMonth { years: 0, months: 0 }
                    }
                } else {
                    lt == LiteralType::I64(0)
                }
            },
            None => lt == LiteralType::I64(0),
        },
        ConstantNode::Other => lt == LiteralType::I64(0),
    }
}

/// The little-endian two's complement bytes of a signed 128-bit number
/// (`i128::to_le_bytes`).
fn i128_le_bytes(v: i128) -> (r: Vec<u8>)
    ensures
        r@ == le_bytes(twos_complement(v as int), 16),
{
    let u: u128 = if v >= 0 {
        v as u128
    } else {
        ((v - i128::MIN) as u128) + 0x8000_0000_0000_0000_0000_0000_0000_0000u128
    };
    assert(u as nat == twos_complement(v as int));
    let mut r: Vec<u8> = Vec::new();
    let mut rem: u128 = u;
    let mut k: usize = 0;
    assert(r@ + le_bytes(rem as nat, 16) =~= le_bytes(u as nat, 16));
    while k < 16
        invariant
            k <= 16,
            r@ + le_bytes(rem as nat, (16 - k) as nat) == le_bytes(u as nat, 16),
        decreases 16 - k,
    {
        let b = (rem % 256) as u8;
        let ghost before = r@;
        let ghost m = (16 - k) as nat;
        assert(le_bytes(rem as nat, m) == seq![b] + le_bytes((rem / 256) as nat, (m - 1) as nat));
        r.push(b);
        rem = rem / 256;
        assert(r@ + le_bytes(rem as nat, (16 - (k + 1)) as nat) =~= before + (seq![b] + le_bytes(
            rem as nat,
            (m - 1) as nat,
        )));
        k += 1;
    }
    assert(r@ =~= le_bytes(u as nat, 16));
    r
}

/// The `i32` numbers among the texts of a decimal's specifier, in order.
fn specifier_values(texts: &Vec<String>) -> (r: Vec<i32>)
    ensures
        r@ == specifier_numbers(texts@),
{
    let mut r: Vec<i32> = Vec::new();
    let mut i: usize = 0;
    assert(texts@.take(0) =~= Seq::<String>::empty());
    while i < texts.len()
        invariant
            i <= texts@.len(),
            r@ == specifier_numbers(texts@.take(i as int)),
        decreases texts.len() - i,
    {
        proof {
            let t = texts@.take(i + 1);
            assert(t.drop_last() =~= texts@.take(i as int));
            assert(t.last() == texts@[i as int]);
        }
        match parse_i32(texts[i].as_str()) {
            Some(v) => r.push(v),
            None => {},
        }
        i += 1;
    }
    assert(texts@.take(texts.len() as int) =~= texts@);
    r
}

/// The literal of a number with a type suffix of this lower-case name.
fn typed_number(
    text: &str,
    name: &str,
    specifier: &Option<Vec<String>>,
    fp32_text: &Option<String>,
    fp64_text: &Option<String>,
) -> (r: LiteralType)
    ensures
        typed_number_literal(text@, name@, *specifier, *fp32_text, *fp64_text, r),
{
    let i32_value: i32 = match parse_i32(text) {
        Some(v) => v,
        None => 0,
    };
    let i64_value: i64 = match parse_i64(text) {
        Some(v) => v,
        None => 0,
    };
    if text_equals(name, "date") {
        LiteralType::Date(i32_value)
    } else if text_equals(name, "time") {
        LiteralType::Time(i64_value)
    } else if text_equals(name, "interval_year") {
        LiteralType::IntervalYearToMonth { years: i32_value, months: 0 }
    } else if text_equals(name, "interval_year_month") {
        let total = i32_value as i64;
        let (years, months) = if total >= 0 {
            (total / 12, total % 12)
        } else {
            (-((-total) / 12), -((-total) % 12))
        };
        LiteralType::IntervalYearToMonth { years: years as i32, months: months as i32 }
    } else if text_equals(name, "decimal") {
        match parse_i128(text) {
            Some(v) => {
                let bytes = i128_le_bytes(v);
                let (precision, scale) = match specifier {
                    Some(texts) => {
                        let numbers = specifier_values(texts);
                        if numbers.len() >= 2 {
                            (numbers[0], numbers[1])
                        } else if numbers.len() == 1 {
                            (numbers[0], 0)
                        } else {
                            (38, 0)
                        }
                    },
                    None => (38, 0),
                };
                LiteralType::Decimal { value: bytes, precision, scale }
            },
            None => {
                let zeros: Vec<u8> = vec![0u8; 16];
                assert(zeros@ =~= Seq::new(16, |i: int| 0u8));
                LiteralType::Decimal { value: zeros, precision: 38, scale: 0 }
            },
        }
    } else if text_equals(name, "i8") {
        LiteralType::I8(i32_value)
    } else if text_equals(name, "i16") {
        LiteralType::I16(i32_value)
    } else if text_equals(name, "i32") {
        LiteralType::I32(i32_value)
    } else if text_equals(name, "i64") {
        LiteralType::I64(i64_value)
    } else if text_equals(name, "fp32") {
        LiteralType::Fp32(float_value_text(fp32_text))
    } else if text_equals(name, "fp64") {
        LiteralType::Fp64(float_value_text(fp64_text))
    } else {
        LiteralType::I64(i64_value)
    }
}

/// The text of a floating-point value as read, or `0` where none was read.
fn float_value_text(t: &Option<String>) -> (r: String)
    ensures
        r@ == float_text(*t),
{
    match t {
        Some(x) => x.clone(),
        None => String::from_str("0"),
    }
}

/// The lower-case name of a type suffix, empty where it has none.
fn suffix_name_text(s: &BasicTypeSuffix) -> (r: String)
    ensures
        r@ == suffix_name(*s),
{
    match &s.id {
        Some(id) => to_lowercase(id.as_str()),
        None => String::new(),
    }
}

/// Whether `char::is_alphanumeric` holds of a character: it is alphabetic or numeric under
/// the Unicode tables of std.
pub uninterp spec fn alphanumeric(c: char) -> bool;

/// Whether a character is alphanumeric (`char::is_alphanumeric`).
#[verifier::external_body]
fn char_is_alphanumeric(c: char) -> (r: bool)
    ensures
        r == alphanumeric(c),
{
    c.is_alphanumeric()
}

/// The alphanumeric characters of `s`, in order.
pub open spec fn alphanumerics(s: Seq<char>) -> Seq<char> {
    s.filter(|c: char| alphanumeric(c))
}

/// The sort direction a written direction stands for, once lower-cased and reduced to its
/// letters and digits; anything unrecognized means ascending with nulls last.
pub open spec fn sort_direction_named(normalized: Seq<char>) -> i32 {
    if normalized == "ascnullsfirst"@ {
        SORT_ASC_NULLS_FIRST
    } else if normalized == "ascnullslast"@ {
        SORT_ASC_NULLS_LAST
    } else if normalized == "descnullsfirst"@ {
        SORT_DESC_NULLS_FIRST
    } else if normalized == "descnullslast"@ {
        SORT_DESC_NULLS_LAST
    } else if normalized == "clustered"@ {
        SORT_CLUSTERED
    } else {
        SORT_ASC_NULLS_LAST
    }
}

/// Helper function to parse sort direction from string
fn parse_sort_direction(text: &str) -> (r: i32)
    ensures
        r == sort_direction_named(alphanumerics(lowercased(text@))),
{
    let lower = to_lowercase(text);
    let ghost l = lower@;
    let n = lower.as_str().unicode_len();
    let mut normalized = String::new();
    let mut i: usize = 0;
    while i < n
        invariant
            n == l.len(),
            l == lower@,
            i <= n,
            normalized@ == alphanumerics(l.take(i as int)),
        decreases n - i,
    {
        let c = lower.as_str().get_char(i);
        assert(l.take(i + 1).drop_last() =~= l.take(i as int));
        reveal(Seq::filter);
        if char_is_alphanumeric(c) {
            normalized.append(lower.as_str().substring_char(i, i + 1));
        }
        assert(normalized@ =~= alphanumerics(l.take(i + 1)));
        i += 1;
    }
    assert(l.take(n as int) =~= l);
    let t = normalized.as_str();
    if text_equals(t, "ascnullsfirst") {
        SORT_ASC_NULLS_FIRST
    } else if text_equals(t, "ascnullslast") {
        SORT_ASC_NULLS_LAST
    } else if text_equals(t, "descnullsfirst") {
        SORT_DESC_NULLS_FIRST
    } else if text_equals(t, "descnullslast") {
        SORT_DESC_NULLS_LAST
    } else if text_equals(t, "clustered") {
        SORT_CLUSTERED
    } else {
        SORT_ASC_NULLS_LAST
    }
}

/// The counter kept for `name` in a list of named counters: that of its first entry, or 0.
pub open spec fn counter_value(c: Seq<(Seq<char>, i32)>, name: Seq<char>) -> i32
    decreases c.len(),
{
    if c.len() == 0 {
        0
    } else if c[0].0 == name {
        c[0].1
    } else {
        counter_value(c.drop_first(), name)
    }
}

proof fn lemma_counter_found(c: Seq<(Seq<char>, i32)>, i: int)
    requires
        0 <= i < c.len(),
        forall|j: int| 0 <= j < i ==> #[trigger] c[j].0 != c[i].0,
    ensures
        counter_value(c, c[i].0) == c[i].1,
    decreases i,
{
    if i > 0 {
        assert(c[0].0 != c[i].0);
        assert forall|j: int| 0 <= j < i - 1 implies #[trigger] c.drop_first()[j].0
            != c.drop_first()[i - 1].0 by {
            assert(c.drop_first()[j] == c[j + 1]);
        }
        lemma_counter_found(c.drop_first(), i - 1);
    }
}

proof fn lemma_counter_update(c: Seq<(Seq<char>, i32)>, i: int, v: i32, n: Seq<char>)
    requires
        0 <= i < c.len(),
        forall|j: int| 0 <= j < i ==> #[trigger] c[j].0 != c[i].0,
    ensures
        counter_value(c.update(i, (c[i].0, v)), n) == if n == c[i].0 {
            v
        } else {
            counter_value(c, n)
        },
    decreases i,
{
    let u = c.update(i, (c[i].0, v));
    if i == 0 {
        assert(u.drop_first() =~= c.drop_first());
    } else {
        assert(c[0].0 != c[i].0);
        assert(u[0] == c[0]);
        assert(u.drop_first() =~= c.drop_first().update(i - 1, (c[i].0, v)));
        assert forall|j: int| 0 <= j < i - 1 implies #[trigger] c.drop_first()[j].0
            != c.drop_first()[i - 1].0 by {
            assert(c.drop_first()[j] == c[j + 1]);
        }
        lemma_counter_update(c.drop_first(), i - 1, v, n);
    }
}

proof fn lemma_counter_push(c: Seq<(Seq<char>, i32)>, name: Seq<char>, n: Seq<char>)
    requires
        forall|j: int| 0 <= j < c.len() ==> #[trigger] c[j].0 != name,
    ensures
        counter_value(c.push((name, 1)), n) == if n == name {
            1
        } else {
            counter_value(c, n)
        },
    decreases c.len(),
{
    let p = c.push((name, 1));
    if c.len() > 0 {
        assert(p[0] == c[0]);
        assert(p.drop_first() =~= c.drop_first().push((name, 1)));
        assert forall|j: int| 0 <= j < c.drop_first().len() implies #[trigger] c.drop_first()[j].0
            != name by {
            assert(c.drop_first()[j] == c[j + 1]);
        }
        assert(c[0].0 != name);
        lemma_counter_push(c.drop_first(), name, n);
    } else {
        assert(p[0] == (name, 1i32));
        assert(p.drop_first() =~= Seq::<(Seq<char>, i32)>::empty());
        assert(counter_value(p.drop_first(), n) == 0);
    }
}

proof fn lemma_counter_absent(c: Seq<(Seq<char>, i32)>, name: Seq<char>)
    requires
        forall|j: int| 0 <= j < c.len() ==> #[trigger] c[j].0 != name,
    ensures
        counter_value(c, name) == 0,
    decreases c.len(),
{
    if c.len() > 0 {
        assert forall|j: int| 0 <= j < c.drop_first().len() implies #[trigger] c.drop_first()[j].0
            != name by {
            assert(c.drop_first()[j] == c[j + 1]);
        }
        assert(c[0].0 != name);
        lemma_counter_absent(c.drop_first(), name);
    }
}

/// The fields that the relation at position `u` puts out: its output fields where it has
/// any, else its incoming fields followed by those it makes (none where no relation data
/// is there).
pub open spec fn put_out_fields(t: Seq<SymbolInfoView>, u: int) -> Seq<usize> {
    if 0 <= u < t.len() {
        match t[u].blob {
            Some(BlobView::Relation { field_references, generated_field_references, output_field_references, .. }) => {
                if output_field_references.len() > 0 {
                    output_field_references
                } else {
                    field_references + generated_field_references
                }
            },
            _ => Seq::empty(),
        }
    } else {
        Seq::empty()
    }
}

/// The fields that the relations at `ps` put out, in order.
pub open spec fn pipelines_fields(t: Seq<SymbolInfoView>, ps: Seq<usize>) -> Seq<usize>
    decreases ps.len(),
{
    if ps.len() == 0 {
        Seq::empty()
    } else {
        pipelines_fields(t, ps.drop_last()) + put_out_fields(t, ps.last() as int)
    }
}

/// The symbols after filling in the incoming fields of the relation at `s`, with the names in
/// `visiting` being filled in up the walk: a symbol whose name is among them, one that is no
/// relation, and a relation that has incoming fields already, are left as they are; else the
/// relation its pipeline continues into and those of the pipelines it starts are filled in
/// first, and its incoming fields become the fields these put out, in that order. (Relation
/// data here holds no schema and no expressions, so a read takes no schema columns and no
/// fields are made here.) The walk goes no deeper than `fuel` levels.
pub open spec fn with_input_fields(t: Seq<SymbolInfoView>, s: usize, visiting: Seq<Seq<char>>, fuel: nat) -> Seq<
    SymbolInfoView,
>
    decreases fuel, 0nat,
{
    if fuel == 0 || s >= t.len() || visiting.contains(t[s as int].name) {
        t
    } else {
        match t[s as int].blob {
            Some(BlobView::Relation { field_references, continuing_pipeline, new_pipelines, .. }) => {
                if field_references.len() > 0 {
                    t
                } else {
                    let v = visiting.push(t[s as int].name);
                    let t1 = match continuing_pipeline {
                        Some(c) => with_input_fields(t, c, v, (fuel - 1) as nat),
                        None => t,
                    };
                    let t2 = with_upstream_fields(t1, new_pipelines, v, (fuel - 1) as nat);
                    let collected = match continuing_pipeline {
                        Some(c) => put_out_fields(t2, c as int),
                        None => Seq::empty(),
                    } + pipelines_fields(t2, new_pipelines);
                    match t2[s as int].blob {
                        Some(
                            BlobView::Relation {
                                pipeline_start,
                                continuing_pipeline,
                                new_pipelines,
                                generated_field_references,
                                output_field_references,
                                relation,
                                root_names,
                                ..
                            },
                        ) => t2.update(
                            s as int,
                            with_blob(
                                t2[s as int],
                                Some(
                                    BlobView::Relation {
                                        pipeline_start,
                                        continuing_pipeline,
                                        new_pipelines,
                                        field_references: collected,
                                        generated_field_references,
                                        output_field_references,
                                        relation,
                                        root_names,
                                    },
                                ),
                            ),
                        ),
                        _ => t2,
                    }
                }
            },
            _ => t,
        }
    }
}

/// The symbols after filling in the incoming fields of the relations at `ps`, in order.
pub open spec fn with_upstream_fields(t: Seq<SymbolInfoView>, ps: Seq<usize>, visiting: Seq<Seq<char>>, fuel: nat) -> Seq<
    SymbolInfoView,
>
    decreases fuel, ps.len() + 1,
{
    if ps.len() == 0 {
        t
    } else {
        with_input_fields(with_upstream_fields(t, ps.drop_last(), visiting, fuel), ps.last(), visiting, fuel)
    }
}

/// Filling in incoming fields keeps the number of symbols.
pub proof fn lemma_input_fields_len(t: Seq<SymbolInfoView>, s: usize, visiting: Seq<Seq<char>>, fuel: nat)
    ensures
        with_input_fields(t, s, visiting, fuel).len() == t.len(),
    decreases fuel, 0nat,
{
    if !(fuel == 0 || s >= t.len() || visiting.contains(t[s as int].name)) {
        match t[s as int].blob {
            Some(BlobView::Relation { field_references, continuing_pipeline, new_pipelines, .. }) => {
                if field_references.len() == 0 {
                    let v = visiting.push(t[s as int].name);
                    let t1 = match continuing_pipeline {
                        Some(c) => with_input_fields(t, c, v, (fuel - 1) as nat),
                        None => t,
                    };
                    if let Some(c) = continuing_pipeline {
                        lemma_input_fields_len(t, c, v, (fuel - 1) as nat);
                    }
                    lemma_upstream_fields_len(t1, new_pipelines, v, (fuel - 1) as nat);
                }
            },
            _ => {},
        }
    }
}

/// Filling in the incoming fields of several relations keeps the number of symbols.
pub proof fn lemma_upstream_fields_len(t: Seq<SymbolInfoView>, ps: Seq<usize>, visiting: Seq<Seq<char>>, fuel: nat)
    ensures
        with_upstream_fields(t, ps, visiting, fuel).len() == t.len(),
    decreases fuel, ps.len() + 1,
{
    if ps.len() > 0 {
        lemma_upstream_fields_len(t, ps.drop_last(), visiting, fuel);
        lemma_input_fields_len(with_upstream_fields(t, ps.drop_last(), visiting, fuel), ps.last(), visiting, fuel);
    }
}

/// The pass that builds the content of each relation: its expressions, fields and inputs.
pub struct RelationVisitor {
    symbol_table: SymbolTable,
    error_listener: ErrorListener,
    current_relation_scope: Option<SymbolInfo>,
    prescan_mode: bool,
    processing_emit: bool,
    subquery_index_counters: Vec<(String, i32)>,
}

impl RelationVisitor {
    /// The symbols of the visitor's table.
    pub closed spec fn spec_symbols(&self) -> Seq<SymbolInfoView> {
        self.symbol_table@
    }

    /// The errors reported so far.
    pub closed spec fn spec_errors(&self) -> Seq<ParseErrorView> {
        self.error_listener@
    }

    /// The relation being processed, if any.
    pub closed spec fn spec_relation_scope(&self) -> Option<SymbolInfoView> {
        symbol_view_opt(self.current_relation_scope)
    }

    /// Whether the visitor only marks subqueries, without building expressions.
    pub closed spec fn spec_prescan_mode(&self) -> bool {
        self.prescan_mode
    }

    /// The subquery counters, by name of the enclosing relation.
    pub closed spec fn spec_counters(&self) -> Seq<(Seq<char>, i32)> {
        self.subquery_index_counters@.map_values(|p: (String, i32)| (p.0@, p.1))
    }

    /// Creates a new RelationVisitor.
    pub fn new(symbol_table: SymbolTable, error_listener: ErrorListener) -> (r: Self)
        ensures
            r.spec_symbols() == symbol_table@,
            r.spec_errors() == error_listener@,
            r.spec_relation_scope() is None,
            !r.spec_prescan_mode(),
            forall|n: Seq<char>| counter_value(r.spec_counters(), n) == 0,
    {
        let r = Self {
            symbol_table,
            error_listener,
            current_relation_scope: None,
            prescan_mode: false,
            processing_emit: false,
            subquery_index_counters: Vec::new(),
        };
        assert(r.spec_counters() =~= Seq::<(Seq<char>, i32)>::empty());
        r
    }

    /// Sets prescan mode - when true, only marks subqueries without building expressions.
    pub fn set_prescan_mode(&mut self, prescan: bool)
        ensures
            final(self).spec_prescan_mode() == prescan,
            final(self).spec_symbols() == old(self).spec_symbols(),
            final(self).spec_errors() == old(self).spec_errors(),
            final(self).spec_relation_scope() == old(self).spec_relation_scope(),
            final(self).spec_counters() == old(self).spec_counters(),
    {
        self.prescan_mode = prescan;
    }

    /// Gets and increments the next subquery index for a given parent relation.
    fn get_next_subquery_index(&mut self, parent_name: &str) -> (r: i32)
        requires
            counter_value(old(self).spec_counters(), parent_name@) < i32::MAX,
        ensures
            r == counter_value(old(self).spec_counters(), parent_name@),
            forall|n: Seq<char>|
                #![trigger counter_value(final(self).spec_counters(), n)]
                counter_value(final(self).spec_counters(), n) == if n == parent_name@ {
                    (r + 1) as i32
                } else {
                    counter_value(old(self).spec_counters(), n)
                },
            final(self).spec_symbols() == old(self).spec_symbols(),
            final(self).spec_errors() == old(self).spec_errors(),
    {
        let ghost c = self.spec_counters();
        let mut i: usize = 0;
        while i < self.subquery_index_counters.len()
            invariant
                i <= self.subquery_index_counters.len(),
                c == self.spec_counters(),
                c.len() == self.subquery_index_counters.len(),
                self.spec_counters() == old(self).spec_counters(),
                counter_value(c, parent_name@) < i32::MAX,
                self.symbol_table@ == old(self).symbol_table@,
                self.error_listener@ == old(self).error_listener@,
                forall|j: int| 0 <= j < i ==> #[trigger] c[j].0 != parent_name@,
            decreases self.subquery_index_counters.len() - i,
        {
            let index = self.subquery_index_counters[i].1;
            let found = text_equals(self.subquery_index_counters[i].0.as_str(), parent_name);
            assert(c[i as int] == (self.subquery_index_counters@[i as int].0@, index));
            if found {
                proof {
                    lemma_counter_found(c, i as int);
                }
                let name = self.subquery_index_counters[i].0.clone();
                self.subquery_index_counters.set(i, (name, index + 1));
                assert(self.spec_counters() =~= c.update(i as int, (c[i as int].0, (index + 1) as i32)));
                proof {
                    assert forall|n: Seq<char>| #[trigger]
                        counter_value(self.spec_counters(), n) == if n == parent_name@ {
                            (index + 1) as i32
                        } else {
                            counter_value(c, n)
                        } by {
                        lemma_counter_update(c, i as int, (index + 1) as i32, n);
                    }
                }
                return index;
            }
            i += 1;
        }
        proof {
            assert forall|n: Seq<char>| #[trigger]
                counter_value(c.push((parent_name@, 1)), n) == if n == parent_name@ {
                    1
                } else {
                    counter_value(c, n)
                } by {
                lemma_counter_push(c, parent_name@, n);
            }
            lemma_counter_absent(c, parent_name@);
        }
        self.subquery_index_counters.push((String::from_str(parent_name), 1));
        assert(self.spec_counters() =~= c.push((parent_name@, 1)));
        0
    }

    /// Gets a copy of the symbol table.
    /// Fills in the fields that come into the relation at `relation` from the relations of its
    /// pipelines (see `with_input_fields`), those relations first; no deeper than the table
    /// has symbols.
    pub fn add_input_fields_to_schema(&mut self, relation: usize)
        ensures
            final(self).spec_symbols() == with_input_fields(
                old(self).spec_symbols(),
                relation,
                Seq::empty(),
                old(self).spec_symbols().len(),
            ),
            final(self).spec_errors() == old(self).spec_errors(),
            final(self).spec_relation_scope() == old(self).spec_relation_scope(),
            final(self).spec_prescan_mode() == old(self).spec_prescan_mode(),
            final(self).spec_counters() == old(self).spec_counters(),
    {
        let mut visiting: Vec<String> = Vec::new();
        assert(texts_view(visiting@) =~= Seq::<Seq<char>>::empty());
        let fuel = self.symbol_table.len();
        self.fill_input_fields(relation, &mut visiting, fuel);
    }

    /// Fills in the incoming fields of the relation at `s`, with the names in `visiting`
    /// being filled in already up the walk (see `with_input_fields`).
    fn fill_input_fields(&mut self, s: usize, visiting: &mut Vec<String>, fuel: usize)
        ensures
            final(self).spec_symbols() == with_input_fields(
                old(self).spec_symbols(),
                s,
                texts_view(old(visiting)@),
                fuel as nat,
            ),
            texts_view(final(visiting)@) == texts_view(old(visiting)@),
            final(self).spec_errors() == old(self).spec_errors(),
            final(self).spec_relation_scope() == old(self).spec_relation_scope(),
            final(self).spec_prescan_mode() == old(self).spec_prescan_mode(),
            final(self).spec_counters() == old(self).spec_counters(),
        decreases fuel, 0nat,
    {
        let ghost t = self.spec_symbols();
        let ghost v0 = texts_view(visiting@);
        if fuel == 0 || s >= self.symbol_table.len() {
            return;
        }
        let symbols = self.symbol_table.symbols();
        assert(symbols@[s as int]@ == t[s as int]);
        let name = String::from_str(symbols[s].name());
        let mut seen = false;
        let mut i: usize = 0;
        while i < visiting.len()
            invariant
                i <= visiting.len(),
                texts_view(visiting@) == v0,
                seen <==> exists|j: int| 0 <= j < i && v0[j] == name@,
            decreases visiting.len() - i,
        {
            assert(v0[i as int] == visiting@[i as int]@);
            if text_equals(visiting[i].as_str(), name.as_str()) {
                seen = true;
            }
            i += 1;
        }
        assert(seen <==> v0.contains(name@));
        if seen {
            return;
        }
        let (continuing, new_pipelines) = match symbols[s].blob() {
            Some(SymbolBlob::Relation(d)) => {
                if d.field_references.len() > 0 {
                    return;
                }
                (d.continuing_pipeline, d.new_pipelines.clone())
            },
            _ => return,
        };
        visiting.push(name);
        assert(texts_view(visiting@) =~= v0.push(t[s as int].name));
        let ghost v = v0.push(t[s as int].name);
        if let Some(c) = continuing {
            self.fill_input_fields(c, visiting, fuel - 1);
            proof {
                lemma_input_fields_len(t, c, v, (fuel - 1) as nat);
            }
        }
        let ghost t1 = self.spec_symbols();
        self.fill_upstreams(new_pipelines.as_slice(), visiting, fuel - 1);
        let ghost t2 = self.spec_symbols();
        proof {
            lemma_upstream_fields_len(t1, new_pipelines@, v, (fuel - 1) as nat);
        }
        let mut collected: Vec<usize> = match continuing {
            Some(c) => self.put_out_fields_of(c),
            None => Vec::new(),
        };
        let mut more = self.pipelines_fields_of(new_pipelines.as_slice());
        collected.append(&mut more);
        let all = self.symbol_table.symbols();
        assert(all@[s as int]@ == t2[s as int]);
        match all[s].blob() {
            Some(SymbolBlob::Relation(d)) => {
                let mut updated = d.duplicate();
                updated.field_references = collected;
                self.symbol_table.set_blob(s, Some(SymbolBlob::Relation(updated)));
            },
            _ => {},
        }
        let ghost full = visiting@;
        visiting.pop();
        assert(texts_view(visiting@) =~= texts_view(full).drop_last());
    }

    /// Fills in the incoming fields of the relations at `ps`, in order.
    fn fill_upstreams(&mut self, ps: &[usize], visiting: &mut Vec<String>, fuel: usize)
        ensures
            final(self).spec_symbols() == with_upstream_fields(
                old(self).spec_symbols(),
                ps@,
                texts_view(old(visiting)@),
                fuel as nat,
            ),
            texts_view(final(visiting)@) == texts_view(old(visiting)@),
            final(self).spec_errors() == old(self).spec_errors(),
            final(self).spec_relation_scope() == old(self).spec_relation_scope(),
            final(self).spec_prescan_mode() == old(self).spec_prescan_mode(),
            final(self).spec_counters() == old(self).spec_counters(),
        decreases fuel, ps@.len() + 1,
    {
        let ghost t = self.spec_symbols();
        let ghost v0 = texts_view(visiting@);
        let mut i: usize = 0;
        while i < ps.len()
            invariant
                i <= ps.len(),
                self.spec_symbols() == with_upstream_fields(t, ps@.take(i as int), v0, fuel as nat),
                texts_view(visiting@) == v0,
                self.spec_errors() == old(self).spec_errors(),
                self.spec_relation_scope() == old(self).spec_relation_scope(),
                self.spec_prescan_mode() == old(self).spec_prescan_mode(),
                self.spec_counters() == old(self).spec_counters(),
            decreases ps.len() - i,
        {
            assert(ps@.take(i as int + 1).drop_last() =~= ps@.take(i as int));
            self.fill_input_fields(ps[i], visiting, fuel);
            i += 1;
        }
        assert(ps@.take(i as int) =~= ps@);
    }

    /// The fields that the relation at `u` puts out (see `put_out_fields`).
    fn put_out_fields_of(&self, u: usize) -> (r: Vec<usize>)
        ensures
            r@ == put_out_fields(self.spec_symbols(), u as int),
    {
        let symbols = self.symbol_table.symbols();
        if u >= symbols.len() {
            return Vec::new();
        }
        assert(symbols@[u as int]@ == self.spec_symbols()[u as int]);
        match symbols[u].blob() {
            Some(SymbolBlob::Relation(d)) => {
                if d.output_field_references.len() > 0 {
                    d.output_field_references.clone()
                } else {
                    let mut v = d.field_references.clone();
                    let mut g = d.generated_field_references.clone();
                    v.append(&mut g);
                    v
                }
            },
            _ => Vec::new(),
        }
    }

    /// The fields that the relations at `ps` put out, in order.
    fn pipelines_fields_of(&self, ps: &[usize]) -> (r: Vec<usize>)
        ensures
            r@ == pipelines_fields(self.spec_symbols(), ps@),
    {
        let mut r: Vec<usize> = Vec::new();
        let mut i: usize = 0;
        while i < ps.len()
            invariant
                i <= ps.len(),
                r@ == pipelines_fields(self.spec_symbols(), ps@.take(i as int)),
            decreases ps.len() - i,
        {
            assert(ps@.take(i as int + 1).drop_last() =~= ps@.take(i as int));
            let mut w = self.put_out_fields_of(ps[i]);
            r.append(&mut w);
            i += 1;
        }
        assert(ps@.take(i as int) =~= ps@);
        r
    }

    pub fn symbol_table(&self) -> (r: SymbolTable)
        ensures
            r@ == self.spec_symbols(),
    {
        self.symbol_table.duplicate()
    }

    /// Gets a mutable reference to the symbol table.
    fn symbol_table_mut(&mut self) -> (r: &mut SymbolTable)
        ensures
            r@ == old(self).spec_symbols(),
            final(self).spec_symbols() == final(r)@,
            final(self).spec_errors() == old(self).spec_errors(),
    {
        &mut self.symbol_table
    }

    /// Gets the error listener.
    pub fn error_listener(&self) -> (r: &ErrorListener)
        ensures
            r@ == self.spec_errors(),
    {
        &self.error_listener
    }

    /// Gets the current relation scope, if any.
    pub fn current_relation_scope(&self) -> (r: Option<&SymbolInfo>)
        ensures
            symbol_ref_view_opt(r) == self.spec_relation_scope(),
    {
        symbol_as_ref(&self.current_relation_scope)
    }

    /// Sets the current relation scope.
    pub fn set_current_relation_scope(&mut self, scope: Option<SymbolInfo>)
        ensures
            final(self).spec_relation_scope() == symbol_view_opt(scope),
            final(self).spec_symbols() == old(self).spec_symbols(),
            final(self).spec_errors() == old(self).spec_errors(),
            final(self).spec_prescan_mode() == old(self).spec_prescan_mode(),
            final(self).spec_counters() == old(self).spec_counters(),
    {
        self.current_relation_scope = scope;
    }

    /// Adds an error message, at the location of the token it is about.
    pub fn add_error(&mut self, location: TextLocation, message: &str)
        ensures
            final(self).spec_errors() == old(self).spec_errors().push(
                ParseErrorView { message: message@, location },
            ),
            final(self).spec_symbols() == old(self).spec_symbols(),
    {
        self.error_listener.add_error(String::from_str(message), location);
    }

    /// Look up the function reference (anchor) from the symbol table
    pub fn lookup_function_reference(&self, function_name: &str) -> (r: u32)
        ensures
            r == function_anchor_for(self.spec_symbols(), function_name@),
    {
        let symbols = self.symbol_table.symbols();
        let ghost t = self.spec_symbols();
        let mut i: usize = 0;
        assert(t.skip(0) =~= t);
        while i < symbols.len()
            invariant
                i <= symbols@.len(),
                t == self.spec_symbols(),
                symbols@.map_values(|s: SymbolInfo| s@) == t,
                function_anchor_for(t, function_name@) == function_anchor_for(
                    t.skip(i as int),
                    function_name@,
                ),
            decreases symbols.len() - i,
        {
            let symbol = &symbols[i];
            assert(t[i as int] == symbol@);
            assert(t.skip(i as int)[0] == symbol@);
            if symbol.symbol_type() == SymbolType::Function && text_equals(symbol.name(), function_name) {
                if let Some(SymbolBlob::Function(data)) = symbol.blob() {
                    return data.anchor;
                }
            }
            assert(t.skip(i as int).drop_first() =~= t.skip(i + 1));
            i += 1;
        }
        assert(t.skip(i as int) =~= Seq::<SymbolInfoView>::empty());
        0
    }

    /// Extract a numeric value from a constant context.
    fn extract_number_from_constant(constant: &ConstantNode) -> (r: i32)
        ensures
            r == constant_number(*constant),
    {
        match constant {
            ConstantNode::Number { text, .. } => match parse_i32(text.as_str()) {
                Some(v) => v,
                None => 0,
            },
            _ => 0,
        }
    }

    /// Build a constant literal expression from a constant AST node
    pub fn build_constant(&self, constant: &ConstantNode) -> (r: Expression)
        requires
            constant matches ConstantNode::Text { text, .. } ==> text@ != "\""@,
        ensures
            r.rex_type matches Some(RexType::Literal(l)) && (!l.nullable && (l.literal_type matches Some(
                lt,
            ) && literal_of_constant(*constant, lt))),
    {
        proof {
            reveal_strlit("\"");
        }
        let literal_type = match constant {
            ConstantNode::Number { text, suffix, fp32_text, fp64_text } => match suffix {
                Some(s) => {
                    let name = suffix_name_text(s);
                    typed_number(text.as_str(), name.as_str(), &s.specifier, fp32_text, fp64_text)
                },
                None => match parse_i32(text.as_str()) {
                    Some(v) => LiteralType::I32(v),
                    None => match parse_i64(text.as_str()) {
                        Some(v) => LiteralType::I64(v),
                        None => LiteralType::I64(0),
                    },
                },
            },
            ConstantNode::Text { text, suffix } => {
                let t = text.as_str();
                let string_value = if starts_with(t, "\"") && ends_with(t, "\"") {
                    let n = t.unicode_len();
                    assert(n >= 2) by {
                        if n == 1 {
                            assert(t@ =~= "\""@);
                        }
                    }
                    let inner = t.substring_char(1, n - 1);
                    String::from_str(inner)
                } else {
                    String::from_str(t)
                };
                assert(string_value@ == unquoted_text(text@));
                let name: Option<String> = match suffix {
                    Some(s) => match &s.id {
                        Some(id) => Some(to_lowercase(id.as_str())),
                        None => None,
                    },
                    None => None,
                };
                match name {
                    Some(n) => {
                        if text_equals(n.as_str(), "fixedchar") {
                            LiteralType::FixedChar(string_value)
                        } else if text_equals(n.as_str(), "varchar") {
                            LiteralType::VarChar { value: string_value, length: 0 }
                        } else {
                            LiteralType::String(string_value)
                        }
                    },
                    None => LiteralType::String(string_value),
                }
            },
            ConstantNode::True => LiteralType::Boolean(true),
            ConstantNode::False => LiteralType::Boolean(false),
            ConstantNode::Null => LiteralType::Null,
            ConstantNode::Struct { complex_type, constants } => match complex_type {
                Some(t) => {
                    let name = to_lowercase(t.as_str());
                    if text_equals(name.as_str(), "interval_day_second") {
                        if constants.len() >= 3 {
                            let days = Self::extract_number_from_constant(&constants[0]);
                            let seconds = Self::extract_number_from_constant(&constants[1]);
                            let microseconds = Self::extract_number_from_constant(&constants[2]);
                            LiteralType::IntervalDayToSecond {
                                days,
                                seconds,
                                subseconds: 0,
                                microseconds: Some(microseconds),
                            }
                        } else {
                            LiteralType::IntervalDayToSecond {
                                days: 0,
                                seconds: 0,
                                subseconds: 0,
                                microseconds: Some(0),
                            }
                        }
                    } else if text_equals(name.as_str(), "interval_year_month") {
                        if constants.len() >= 2 {
                            let years = Self::extract_number_from_constant(&constants[0]);
                            let months = Self::extract_number_from_constant(&constants[1]);
                            LiteralType::IntervalYearToMonth { years, months }
                        } else {
                            LiteralType::IntervalYearToMonth { years: 0, months: 0 }
                        }
                    } else {
                        LiteralType::I64(0)
                    }
                },
                None => LiteralType::I64(0),
            },
            ConstantNode::Other => LiteralType::I64(0),
        };
        Expression {
            rex_type: Some(
                RexType::Literal(Literal { literal_type: Some(literal_type), nullable: false }),
            ),
        }
    }
}

impl PlanVisitor for RelationVisitor {
    fn error_listener(&self) -> (r: &ErrorListener)
        ensures
            r@ == self.spec_errors(),
    {
        &self.error_listener
    }

    fn symbol_table(&self) -> (r: SymbolTable)
        ensures
            r@ == self.spec_symbols(),
    {
        self.symbol_table.duplicate()
    }
}

} // verus!
