//! Reading Substrait types from their textplan spelling.

use vstd::prelude::*;

use crate::proto::{
    type_view, types_view, BasicKind, Kind, KindView, Type, TypeView, NULLABILITY_NULLABLE,
    NULLABILITY_REQUIRED,
};
use crate::textplan::common::text_location::TextLocation;
use crate::textplan::common::text_ops::{concatenated, push_char, texts_view};
use crate::textplan::common::text_scan::{
    ends_with, find, find_char, has_prefix, has_suffix, lemma_trimmed_len, parse_i32,
    parse_i32_spec, starts_with, text_equals, trim, trimmed,
};
use crate::textplan::parser::error_listener::{ErrorListener, ParseErrorView};
use crate::textplan::parser::visitors::PlanVisitor;
use crate::textplan::symbol_table::{SymbolInfoView, SymbolTable};

verus! {

/// Whether a type text is marked nullable: a `?` right before the first `<`, or, for a
/// type without parameters, a `?` at the end (the first `?` in both cases).
pub open spec fn nullable_flag(t: Seq<char>) -> bool {
    match find_char(t, '<') {
        Some(a) => a > 0 && find_char(t, '?') == Some(a - 1),
        None => t.len() > 0 && find_char(t, '?') == Some(t.len() - 1),
    }
}

/// The type text without its nullability mark.
pub open spec fn base_type_text(t: Seq<char>) -> Seq<char> {
    let base_name = if nullable_flag(t) {
        t.take(find_char(t, '?').unwrap())
    } else {
        t
    };
    match find_char(t, '<') {
        Some(a) => if nullable_flag(t) {
            base_name + t.skip(a)
        } else {
            t
        },
        None => base_name,
    }
}

/// The nullability code a type text asks for.
pub open spec fn nullability_code(t: Seq<char>) -> i32 {
    if nullable_flag(t) {
        NULLABILITY_NULLABLE
    } else {
        NULLABILITY_REQUIRED
    }
}

/// The parameter text of `b` when it has the form `prefix...>`.
pub open spec fn wrapped_content(b: Seq<char>, prefix: Seq<char>) -> Option<Seq<char>> {
    if has_prefix(b, prefix) && has_suffix(b.skip(prefix.len() as int), seq!['>']) {
        Some(b.subrange(prefix.len() as int, b.len() - 1))
    } else {
        None
    }
}

/// The fields of a struct's parameter text: split at the commas that stand outside angle
/// brackets, each trimmed, and an empty last field dropped.
pub open spec fn split_fields_from(
    cs: Seq<char>,
    depth: int,
    current: Seq<char>,
    acc: Seq<Seq<char>>,
) -> Seq<Seq<char>>
    decreases cs.len(),
{
    if cs.len() == 0 {
        if trimmed(current).len() > 0 {
            acc.push(trimmed(current))
        } else {
            acc
        }
    } else {
        let c = cs[0];
        if c == '<' {
            split_fields_from(cs.drop_first(), depth + 1, current.push(c), acc)
        } else if c == '>' {
            split_fields_from(cs.drop_first(), depth - 1, current.push(c), acc)
        } else if c == ',' && depth == 0 {
            split_fields_from(cs.drop_first(), depth, Seq::empty(), acc.push(trimmed(current)))
        } else {
            split_fields_from(cs.drop_first(), depth, current.push(c), acc)
        }
    }
}

/// The fields of a struct's parameter text.
pub open spec fn split_fields(cs: Seq<char>) -> Seq<Seq<char>> {
    split_fields_from(cs, 0, Seq::empty(), Seq::empty())
}

/// The parameterless types and their spellings.
pub open spec fn basic_kind_named(b: Seq<char>) -> Option<BasicKind> {
    if b == "boolean"@ || b == "bool"@ {
        Some(BasicKind::Bool)
    } else if b == "i8"@ || b == "int8"@ || b == "tinyint"@ {
        Some(BasicKind::I8)
    } else if b == "i16"@ || b == "int16"@ || b == "smallint"@ {
        Some(BasicKind::I16)
    } else if b == "i32"@ || b == "int32"@ || b == "int"@ {
        Some(BasicKind::I32)
    } else if b == "i64"@ || b == "int64"@ || b == "bigint"@ {
        Some(BasicKind::I64)
    } else if b == "fp32"@ || b == "float"@ {
        Some(BasicKind::Fp32)
    } else if b == "fp64"@ || b == "double"@ {
        Some(BasicKind::Fp64)
    } else if b == "string"@ {
        Some(BasicKind::String)
    } else if b == "binary"@ {
        Some(BasicKind::Binary)
    } else if b == "timestamp"@ {
        Some(BasicKind::Timestamp)
    } else if b == "timestamp_tz"@ {
        Some(BasicKind::TimestampTz)
    } else if b == "date"@ {
        Some(BasicKind::Date)
    } else if b == "time"@ {
        Some(BasicKind::Time)
    } else if b == "interval_year"@ || b == "interval_year_to_month"@ || b
        == "interval_year_month"@ {
        Some(BasicKind::IntervalYear)
    } else if b == "interval_day"@ || b == "interval_day_to_second"@ || b
        == "interval_day_second"@ {
        Some(BasicKind::IntervalDay)
    } else if b == "uuid"@ {
        Some(BasicKind::Uuid)
    } else {
        None
    }
}

/// The result for a base type text that names no parameterized type: a parameterless type,
/// a length-less `fixedchar` or `varchar`, or, for anything else, an error and `i32`.
pub open spec fn basic_type_result(b: Seq<char>, t: Seq<char>, n: i32, errs: Seq<Seq<char>>) -> (
    TypeView,
    Seq<Seq<char>>,
) {
    match basic_kind_named(b) {
        Some(k) => (TypeView { kind: Some(KindView::Basic(k, n)) }, errs),
        None => if b == "fixedchar"@ {
            (TypeView { kind: Some(KindView::FixedChar(0, n)) }, errs)
        } else if b == "varchar"@ {
            (TypeView { kind: Some(KindView::Varchar(0, n)) }, errs)
        } else {
            (
                TypeView { kind: Some(KindView::Basic(BasicKind::I32, n)) },
                errs.push("Unsupported or unknown type: "@ + t),
            )
        },
    }
}

/// The result for a type with one length parameter (`fixedchar`, `varchar`, `fixedbinary`).
pub open spec fn length_type_result(
    b: Seq<char>,
    t: Seq<char>,
    n: i32,
    content: Seq<char>,
    message_prefix: Seq<char>,
    make: spec_fn(i32) -> KindView,
) -> (TypeView, Seq<Seq<char>>) {
    match parse_i32_spec(trimmed(content)) {
        Some(len) => (TypeView { kind: Some(make(len)) }, Seq::empty()),
        None => basic_type_result(
            b,
            t,
            n,
            seq![message_prefix + content],
        ),
    }
}

/// The type a type text spells, and the error messages it gives.
pub open spec fn parse_type_spec(t: Seq<char>) -> (TypeView, Seq<Seq<char>>)
    decreases t.len() + 1, 0int,
{
    let b = base_type_text(t);
    let n = nullability_code(t);
    if b.len() > t.len() {
        (TypeView { kind: None }, Seq::empty())
    } else if let Some(c) = wrapped_content(b, "list<"@) {
        let (e, errs) = parse_type_spec(c);
        (TypeView { kind: Some(KindView::List(Box::new(e), n)) }, errs)
    } else if let Some(c) = wrapped_content(b, "struct<"@) {
        let (ts, errs) = parse_type_list(
            split_fields(c).map_values(|f: Seq<char>| trimmed(f)),
            t.len() as int,
        );
        (TypeView { kind: Some(KindView::Struct(ts, n)) }, errs)
    } else if let Some(c) = wrapped_content(b, "map<"@) {
        match find_char(c, ',') {
            Some(i) => {
                let kt = trimmed(c.take(i));
                let vt = trimmed(c.skip(i + 1));
                if kt.len() < t.len() && vt.len() < t.len() {
                    let (k, e1) = parse_type_spec(kt);
                    let (v, e2) = parse_type_spec(vt);
                    (TypeView { kind: Some(KindView::KeyValueMap(Box::new(k), Box::new(v), n)) }, e1
                        + e2)
                } else {
                    (TypeView { kind: None }, Seq::empty())
                }
            },
            None => basic_type_result(b, t, n, seq!["Invalid map type format: "@ + t]),
        }
    } else if let Some(c) = wrapped_content(b, "decimal<"@) {
        match find_char(c, ',') {
            Some(i) => {
                let p = parse_i32_spec(trimmed(c.take(i)));
                let s = parse_i32_spec(trimmed(c.skip(i + 1)));
                if p is Some && s is Some {
                    (
                        TypeView { kind: Some(KindView::Decimal(p.unwrap(), s.unwrap(), n)) },
                        Seq::empty(),
                    )
                } else {
                    basic_type_result(b, t, n, seq!["Invalid decimal parameters: "@ + c])
                }
            },
            None => basic_type_result(b, t, n, seq!["Invalid decimal type format: "@ + t]),
        }
    } else if let Some(c) = wrapped_content(b, "fixedchar<"@) {
        length_type_result(b, t, n, c, "Invalid fixedchar length: "@, |len: i32| KindView::FixedChar(len, n))
    } else if let Some(c) = wrapped_content(b, "varchar<"@) {
        length_type_result(b, t, n, c, "Invalid varchar length: "@, |len: i32| KindView::Varchar(len, n))
    } else if let Some(c) = wrapped_content(b, "fixedbinary<"@) {
        length_type_result(b, t, n, c, "Invalid fixedbinary length: "@, |len: i32| KindView::FixedBinary(len, n))
    } else {
        basic_type_result(b, t, n, Seq::empty())
    }
}

/// The types that a list of type texts spell, and their error messages in order. Every
/// text is shorter than `bound`.
pub open spec fn parse_type_list(fs: Seq<Seq<char>>, bound: int) -> (
    Seq<TypeView>,
    Seq<Seq<char>>,
)
    decreases bound, fs.len(),
{
    if fs.len() == 0 || bound <= 0 {
        (Seq::empty(), Seq::empty())
    } else {
        let (ts, errs) = parse_type_list(fs.drop_last(), bound);
        if fs.last().len() < bound {
            let (t, e) = parse_type_spec(fs.last());
            (ts.push(t), errs + e)
        } else {
            (ts, errs)
        }
    }
}


/// Computes the base type text (without the nullability mark) and the nullability code.
fn base_and_nullability(t: &str) -> (r: (String, i32))
    ensures
        r.0@ == base_type_text(t@),
        r.1 == nullability_code(t@),
        r.0@.len() <= t@.len(),
{
    let n = t.unicode_len();
    let q = find(t, '?');
    let a = find(t, '<');
    let nullable = match a {
        Some(ai) => ai > 0 && match q {
            Some(qi) => qi == ai - 1,
            None => false,
        },
        None => n > 0 && match q {
            Some(qi) => qi == n - 1,
            None => false,
        },
    };
    assert(nullable == nullable_flag(t@));
    let code = if nullable {
        NULLABILITY_NULLABLE
    } else {
        NULLABILITY_REQUIRED
    };
    let base = match a {
        Some(ai) => {
            if nullable {
                let qi = q.unwrap();
                let mut b = String::from_str(t.substring_char(0, qi));
                b.append(t.substring_char(ai, n));
                assert(b@ =~= t@.take(qi as int) + t@.skip(ai as int));
                b
            } else {
                String::from_str(t)
            }
        },
        None => {
            if nullable {
                let qi = q.unwrap();
                String::from_str(t.substring_char(0, qi))
            } else {
                String::from_str(t)
            }
        },
    };
    (base, code)
}

/// The parameter text of `b` when `b` has the form `prefix...>`.
fn wrapped<'a>(b: &'a str, prefix: &str) -> (r: Option<&'a str>)
    ensures
        r is Some <==> wrapped_content(b@, prefix@) is Some,
        r matches Some(c) ==> c@ == wrapped_content(b@, prefix@).unwrap(),
{
    if !starts_with(b, prefix) {
        return None;
    }
    let n = b.unicode_len();
    let m = prefix.unicode_len();
    let rest = b.substring_char(m, n);
    assert(rest@ =~= b@.skip(m as int));
    if !ends_with(rest, ">") {
        proof {
            reveal_strlit(">");
        }
        assert(">"@ =~= seq!['>']);
        return None;
    }
    proof {
        reveal_strlit(">");
    }
    assert(">"@ =~= seq!['>']);
    Some(b.substring_char(m, n - 1))
}

proof fn lemma_split_fields_len(cs: Seq<char>, depth: int, current: Seq<char>, acc: Seq<Seq<char>>, bound: int)
    requires
        current.len() + cs.len() <= bound,
        forall|k: int| 0 <= k < acc.len() ==> (#[trigger] acc[k]).len() <= bound,
    ensures
        forall|k: int|
            0 <= k < split_fields_from(cs, depth, current, acc).len() ==> (
            #[trigger] split_fields_from(cs, depth, current, acc)[k]).len() <= bound,
    decreases cs.len(),
{
    lemma_trimmed_len(current);
    let pushed = acc.push(trimmed(current));
    assert forall|k: int| 0 <= k < pushed.len() implies (#[trigger] pushed[k]).len() <= bound by {
        if k < acc.len() {
            assert(pushed[k] == acc[k]);
        }
    }
    if cs.len() > 0 {
        let c = cs[0];
        if c == ',' && depth == 0 {
            lemma_split_fields_len(cs.drop_first(), depth, Seq::empty(), pushed, bound);
            assert(split_fields_from(cs, depth, current, acc) == split_fields_from(
                cs.drop_first(),
                depth,
                Seq::empty(),
                pushed,
            ));
        } else if c == '<' {
            lemma_split_fields_len(cs.drop_first(), depth + 1, current.push(c), acc, bound);
            assert(split_fields_from(cs, depth, current, acc) == split_fields_from(
                cs.drop_first(),
                depth + 1,
                current.push(c),
                acc,
            ));
        } else if c == '>' {
            lemma_split_fields_len(cs.drop_first(), depth - 1, current.push(c), acc, bound);
            assert(split_fields_from(cs, depth, current, acc) == split_fields_from(
                cs.drop_first(),
                depth - 1,
                current.push(c),
                acc,
            ));
        } else {
            lemma_split_fields_len(cs.drop_first(), depth, current.push(c), acc, bound);
            assert(split_fields_from(cs, depth, current, acc) == split_fields_from(
                cs.drop_first(),
                depth,
                current.push(c),
                acc,
            ));
        }
    }
}

/// Splits a struct's parameter text into its fields, respecting nested angle brackets.
pub fn split_struct_fields(struct_content: &str) -> (r: Vec<String>)
    requires
        struct_content@.len() < 0x7fff_ffff_ffff_ffff,
    ensures
        texts_view(r@) == split_fields(struct_content@),
{
    let n = struct_content.unicode_len();
    let ghost cs = struct_content@;
    let mut result: Vec<String> = Vec::new();
    let mut current = String::new();
    let mut depth: i64 = 0;
    let mut i: usize = 0;
    assert(cs.skip(0) =~= cs);
    assert(texts_view(result@) =~= Seq::<Seq<char>>::empty());
    while i < n
        invariant
            n == cs.len(),
            cs == struct_content@,
            n < 0x7fff_ffff_ffff_ffff,
            i <= n,
            -(i as int) <= depth <= i,
            split_fields(cs) == split_fields_from(cs.skip(i as int), depth as int, current@, texts_view(result@)),
        decreases n - i,
    {
        let c = struct_content.get_char(i);
        let ghost rest = cs.skip(i as int);
        assert(rest[0] == c);
        assert(rest.drop_first() =~= cs.skip(i + 1));
        if c == '<' {
            depth = depth + 1;
            push_char(&mut current, c);
        } else if c == '>' {
            depth = depth - 1;
            push_char(&mut current, c);
        } else if c == ',' && depth == 0 {
            let field = String::from_str(trim(current.as_str()));
            let ghost before = result@;
            result.push(field);
            assert(texts_view(result@) =~= texts_view(before).push(trimmed(current@)));
            current = String::new();
        } else {
            push_char(&mut current, c);
        }
        i = i + 1;
    }
    assert(cs.skip(n as int) =~= Seq::<char>::empty());
    let last = trim(current.as_str());
    if last.unicode_len() > 0 {
        let ghost before = result@;
        result.push(String::from_str(last));
        assert(texts_view(result@) =~= texts_view(before).push(trimmed(current@)));
    }
    result
}

/// The result for a base type text that names no parameterized type.
fn basic_type(b: &str, t: &str, n: i32, errs: &mut Vec<String>) -> (r: Type)
    ensures
        r@ == basic_type_result(b@, t@, n, texts_view(old(errs)@)).0,
        texts_view(final(errs)@) == basic_type_result(b@, t@, n, texts_view(old(errs)@)).1,
{
    let kind = if text_equals(b, "boolean") || text_equals(b, "bool") {
        Some(BasicKind::Bool)
    } else if text_equals(b, "i8") || text_equals(b, "int8") || text_equals(b, "tinyint") {
        Some(BasicKind::I8)
    } else if text_equals(b, "i16") || text_equals(b, "int16") || text_equals(b, "smallint") {
        Some(BasicKind::I16)
    } else if text_equals(b, "i32") || text_equals(b, "int32") || text_equals(b, "int") {
        Some(BasicKind::I32)
    } else if text_equals(b, "i64") || text_equals(b, "int64") || text_equals(b, "bigint") {
        Some(BasicKind::I64)
    } else if text_equals(b, "fp32") || text_equals(b, "float") {
        Some(BasicKind::Fp32)
    } else if text_equals(b, "fp64") || text_equals(b, "double") {
        Some(BasicKind::Fp64)
    } else if text_equals(b, "string") {
        Some(BasicKind::String)
    } else if text_equals(b, "binary") {
        Some(BasicKind::Binary)
    } else if text_equals(b, "timestamp") {
        Some(BasicKind::Timestamp)
    } else if text_equals(b, "timestamp_tz") {
        Some(BasicKind::TimestampTz)
    } else if text_equals(b, "date") {
        Some(BasicKind::Date)
    } else if text_equals(b, "time") {
        Some(BasicKind::Time)
    } else if text_equals(b, "interval_year") || text_equals(b, "interval_year_to_month")
        || text_equals(b, "interval_year_month") {
        Some(BasicKind::IntervalYear)
    } else if text_equals(b, "interval_day") || text_equals(b, "interval_day_to_second")
        || text_equals(b, "interval_day_second") {
        Some(BasicKind::IntervalDay)
    } else if text_equals(b, "uuid") {
        Some(BasicKind::Uuid)
    } else {
        None
    };
    assert(kind == basic_kind_named(b@));
    match kind {
        Some(k) => Type { kind: Some(Kind::Basic { kind: k, nullability: n }) },
        None => {
            if text_equals(b, "fixedchar") {
                Type { kind: Some(Kind::FixedChar { length: 0, nullability: n }) }
            } else if text_equals(b, "varchar") {
                Type { kind: Some(Kind::Varchar { length: 0, nullability: n }) }
            } else {
                let ghost before = errs@;
                errs.push(concatenated("Unsupported or unknown type: ", t));
                assert(texts_view(errs@) =~= texts_view(before).push(
                    "Unsupported or unknown type: "@ + t@,
                ));
                Type { kind: Some(Kind::Basic { kind: BasicKind::I32, nullability: n }) }
            }
        },
    }
}

/// Reads a Substrait type from its textplan spelling, such as `i32?`, `decimal<10,2>` or
/// `struct<i64, list<string>>`, and collects the error messages for what it cannot read.
/// Unknown or malformed types read as `i32` with the requested nullability.
pub fn parse_type_text(type_text: &str) -> (r: (Type, Vec<String>))
    requires
        type_text@.len() < 0x7fff_ffff_ffff_ffff,
    ensures
        r.0@ == parse_type_spec(type_text@).0,
        texts_view(r.1@) == parse_type_spec(type_text@).1,
    decreases type_text@.len(),
{
    let ghost t = type_text@;
    let (base, n) = base_and_nullability(type_text);
    let b = base.as_str();
    let mut errs: Vec<String> = Vec::new();
    assert(texts_view(errs@) =~= Seq::<Seq<char>>::empty());
    if let Some(c) = wrapped(b, "list<") {
        let (e, e_errs) = parse_type_text(c);
        return (Type { kind: Some(Kind::List { element: Box::new(e), nullability: n }) }, e_errs);
    }
    if let Some(c) = wrapped(b, "struct<") {
        let fields = split_struct_fields(c);
        let ghost fs = split_fields(c@).map_values(|f: Seq<char>| trimmed(f));
        proof {
            lemma_split_fields_len(c@, 0, Seq::empty(), Seq::empty(), c@.len() as int);
            assert forall|k: int| 0 <= k < fields@.len() implies (#[trigger] fields@[k])@.len()
                <= c@.len() by {
                assert(texts_view(fields@)[k] == fields@[k]@);
            }
        }
        let mut types: Vec<Type> = Vec::new();
        let mut i: usize = 0;
        while i < fields.len()
            invariant
                i <= fields@.len(),
                texts_view(fields@) == split_fields(c@),
                fs == split_fields(c@).map_values(|f: Seq<char>| trimmed(f)),
                c@.len() < t.len(),
                t == type_text@,
                t.len() < 0x7fff_ffff_ffff_ffff,
                forall|k: int| 0 <= k < fields@.len() ==> (#[trigger] fields@[k])@.len() <= c@.len(),
                (types_view(types@), texts_view(errs@)) == parse_type_list(fs.take(i as int), t.len() as int),
            decreases fields@.len() - i,
        {
            assert(texts_view(fields@)[i as int] == fields@[i as int]@);
            let field = trim(fields[i].as_str());
            proof {
                lemma_trimmed_len(fields@[i as int]@);
            }
            assert(fs[i as int] == field@);
            let (ft, f_errs) = parse_type_text(field);
            let ghost prev_types = types@;
            let ghost prev_errs = errs@;
            types.push(ft);
            let mut j: usize = 0;
            while j < f_errs.len()
                invariant
                    j <= f_errs@.len(),
                    texts_view(errs@) == texts_view(prev_errs) + texts_view(f_errs@).take(j as int),
                decreases f_errs@.len() - j,
            {
                let ghost before = errs@;
                errs.push(f_errs[j].clone());
                assert(texts_view(f_errs@).take(j + 1) =~= texts_view(f_errs@).take(j as int).push(f_errs@[j as int]@));
                assert(texts_view(errs@) =~= texts_view(before).push(f_errs@[j as int]@));
                j = j + 1;
            }
            assert(texts_view(f_errs@).take(j as int) =~= texts_view(f_errs@));
            assert(fs.take(i + 1).drop_last() =~= fs.take(i as int));
            assert(types@.drop_last() =~= prev_types);
            i = i + 1;
        }
        assert(fs.take(i as int) =~= fs);
        return (Type { kind: Some(Kind::Struct { types, nullability: n }) }, errs);
    }
    if let Some(c) = wrapped(b, "map<") {
        match find(c, ',') {
            Some(ci) => {
                let cn = c.unicode_len();
                let ks = c.substring_char(0, ci);
                let vs = c.substring_char(ci + 1, cn);
                assert(ks@ =~= c@.take(ci as int));
                assert(vs@ =~= c@.skip(ci + 1));
                let kt = trim(ks);
                let vt = trim(vs);
                proof {
                    lemma_trimmed_len(c@.take(ci as int));
                    lemma_trimmed_len(c@.skip(ci + 1));
                }
                assert(kt@ == trimmed(c@.take(ci as int)));
                assert(vt@ == trimmed(c@.skip(ci + 1)));
                let (k, mut k_errs) = parse_type_text(kt);
                let (v, v_errs) = parse_type_text(vt);
                let ghost kv = k_errs@;
                let mut j: usize = 0;
                while j < v_errs.len()
                    invariant
                        j <= v_errs@.len(),
                        texts_view(k_errs@) == texts_view(kv) + texts_view(v_errs@).take(j as int),
                    decreases v_errs@.len() - j,
                {
                    let ghost before = k_errs@;
                    k_errs.push(v_errs[j].clone());
                    assert(texts_view(v_errs@).take(j + 1) =~= texts_view(v_errs@).take(j as int).push(v_errs@[j as int]@));
                    assert(texts_view(k_errs@) =~= texts_view(before).push(v_errs@[j as int]@));
                    j = j + 1;
                }
                assert(texts_view(v_errs@).take(j as int) =~= texts_view(v_errs@));
                return (
                    Type {
                        kind: Some(
                            Kind::KeyValueMap { key: Box::new(k), value: Box::new(v), nullability: n },
                        ),
                    },
                    k_errs,
                );
            },
            None => {
                errs.push(concatenated("Invalid map type format: ", type_text));
                assert(texts_view(errs@) =~= seq!["Invalid map type format: "@ + t]);
                let r = basic_type(b, type_text, n, &mut errs);
                return (r, errs);
            },
        }
    }
    if let Some(c) = wrapped(b, "decimal<") {
        match find(c, ',') {
            Some(ci) => {
                let cn = c.unicode_len();
                let pstr = c.substring_char(0, ci);
                let sstr = c.substring_char(ci + 1, cn);
                assert(pstr@ =~= c@.take(ci as int));
                assert(sstr@ =~= c@.skip(ci + 1));
                let ps = trim(pstr);
                let ss = trim(sstr);
                let p = parse_i32(ps);
                let s = parse_i32(ss);
                if p.is_some() && s.is_some() {
                    return (
                        Type {
                            kind: Some(
                                Kind::Decimal {
                                    precision: p.unwrap(),
                                    scale: s.unwrap(),
                                    nullability: n,
                                },
                            ),
                        },
                        errs,
                    );
                }
                errs.push(concatenated("Invalid decimal parameters: ", c));
                assert(texts_view(errs@) =~= seq!["Invalid decimal parameters: "@ + c@]);
                let r = basic_type(b, type_text, n, &mut errs);
                return (r, errs);
            },
            None => {
                errs.push(concatenated("Invalid decimal type format: ", type_text));
                assert(texts_view(errs@) =~= seq!["Invalid decimal type format: "@ + t]);
                let r = basic_type(b, type_text, n, &mut errs);
                return (r, errs);
            },
        }
    }
    if let Some(c) = wrapped(b, "fixedchar<") {
        match parse_i32(trim(c)) {
            Some(len) => {
                return (Type { kind: Some(Kind::FixedChar { length: len, nullability: n }) }, errs);
            },
            None => {
                let mut m = String::from_str("Invalid fixedchar length: ");
                m.append(c);
                errs.push(m);
                assert(texts_view(errs@) =~= seq!["Invalid fixedchar length: "@ + c@]);
                let r = basic_type(b, type_text, n, &mut errs);
                return (r, errs);
            },
        }
    }
    if let Some(c) = wrapped(b, "varchar<") {
        match parse_i32(trim(c)) {
            Some(len) => {
                return (Type { kind: Some(Kind::Varchar { length: len, nullability: n }) }, errs);
            },
            None => {
                let mut m = String::from_str("Invalid varchar length: ");
                m.append(c);
                errs.push(m);
                assert(texts_view(errs@) =~= seq!["Invalid varchar length: "@ + c@]);
                let r = basic_type(b, type_text, n, &mut errs);
                return (r, errs);
            },
        }
    }
    if let Some(c) = wrapped(b, "fixedbinary<") {
        match parse_i32(trim(c)) {
            Some(len) => {
                return (
                    Type { kind: Some(Kind::FixedBinary { length: len, nullability: n }) },
                    errs,
                );
            },
            None => {
                let mut m = String::from_str("Invalid fixedbinary length: ");
                m.append(c);
                errs.push(m);
                assert(texts_view(errs@) =~= seq!["Invalid fixedbinary length: "@ + c@]);
                let r = basic_type(b, type_text, n, &mut errs);
                return (r, errs);
            },
        }
    }
    let r = basic_type(b, type_text, n, &mut errs);
    (r, errs)
}

/// The errors that reading a type text reports, each at `location`.
pub open spec fn type_errors_at(messages: Seq<Seq<char>>, location: TextLocation) -> Seq<
    ParseErrorView,
> {
    messages.map_values(|m: Seq<char>| ParseErrorView { message: m, location })
}

/// The pass that reads the types written in a textplan.
pub struct TypeVisitor {
    symbol_table: SymbolTable,
    error_listener: ErrorListener,
}

impl TypeVisitor {
    /// The symbols of the visitor's table.
    pub closed spec fn spec_symbols(&self) -> Seq<SymbolInfoView> {
        self.symbol_table@
    }

    /// The errors reported so far.
    pub closed spec fn spec_errors(&self) -> Seq<ParseErrorView> {
        self.error_listener@
    }

    /// Creates a new TypeVisitor.
    pub fn new(symbol_table: SymbolTable, error_listener: ErrorListener) -> (r: Self)
        ensures
            r.spec_symbols() == symbol_table@,
            r.spec_errors() == error_listener@,
    {
        TypeVisitor { symbol_table, error_listener }
    }

    /// Gets a mutable reference to the symbol table for modifications.
    pub fn symbol_table_mut(&mut self) -> (r: &mut SymbolTable)
        ensures
            r@ == old(self).spec_symbols(),
            final(self).spec_symbols() == final(r)@,
            final(self).spec_errors() == old(self).spec_errors(),
    {
        &mut self.symbol_table
    }

    /// Reads a type from its text, reporting each problem found at `location`.
    pub fn text_to_type_proto(&mut self, location: TextLocation, type_text: &str) -> (r: Type)
        requires
            type_text@.len() < 0x7fff_ffff_ffff_ffff,
        ensures
            r@ == parse_type_spec(type_text@).0,
            final(self).spec_errors() == old(self).spec_errors() + type_errors_at(
                parse_type_spec(type_text@).1,
                location,
            ),
            final(self).spec_symbols() == old(self).spec_symbols(),
    {
        let (t, errors) = parse_type_text(type_text);
        let ghost ms = texts_view(errors@);
        let mut i: usize = 0;
        while i < errors.len()
            invariant
                i <= errors.len(),
                ms == texts_view(errors@),
                self.error_listener@ == old(self).error_listener@ + type_errors_at(
                    ms.take(i as int),
                    location,
                ),
                self.symbol_table@ == old(self).symbol_table@,
            decreases errors.len() - i,
        {
            self.error_listener.add_error(errors[i].clone(), location);
            assert(ms.take(i + 1) =~= ms.take(i as int).push(ms[i as int]));
            assert(self.error_listener@ =~= old(self).error_listener@ + type_errors_at(
                ms.take(i + 1),
                location,
            ));
            i += 1;
        }
        assert(ms.take(errors.len() as int) =~= ms);
        t
    }

    /// Adds an error message, at the location of the token it is about.
    pub fn add_error(&mut self, location: TextLocation, message: &str)
        ensures
            final(self).spec_errors() == old(self).spec_errors().push(
                ParseErrorView { message: message@, location },
            ),
            final(self).spec_symbols() == old(self).spec_symbols(),
    {
        self.error_listener.add_error(String::from_str(message), location);
    }

    /// Whether the text being read lies inside a struct literal of an external type; this
    /// pass never finds itself there.
    pub fn inside_struct_literal_with_external_type(&self) -> (r: bool)
        ensures
            !r,
    {
        false
    }
}

impl PlanVisitor for TypeVisitor {
    fn error_listener(&self) -> (r: &ErrorListener)
        ensures
            r@ == self.spec_errors(),
    {
        &self.error_listener
    }

    fn symbol_table(&self) -> (r: SymbolTable)
        ensures
            r@ == self.spec_symbols(),
    {
        self.symbol_table.duplicate()
    }
}

} // verus!
