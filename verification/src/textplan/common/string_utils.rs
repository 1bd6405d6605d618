//! String utilities for text plans: quoting and unquoting of string literals.

use vstd::prelude::*;

use crate::textplan::common::text_ops::{char_from_u32, is_scalar_value, push_char};

verus! {

/// Whether `c` is an ASCII control character (U+0000..=U+001F or U+007F).
pub open spec fn is_ascii_control(c: char) -> bool {
    (c as u32) < 0x20 || (c as u32) == 0x7f
}

/// The lower-case hexadecimal digit for `d` (`d < 16`).
pub open spec fn hex_digit(d: u32) -> char {
    if d < 10 {
        (48 + d) as u8 as char
    } else {
        (87 + d) as u8 as char
    }
}

/// The four lower-case hexadecimal digits of `v` (`v < 0x10000`), most significant first,
/// as `format!("{:04x}", v)` writes them.
pub open spec fn hex4(v: u32) -> Seq<char> {
    seq![
        hex_digit((v / 4096) % 16),
        hex_digit((v / 256) % 16),
        hex_digit((v / 16) % 16),
        hex_digit(v % 16),
    ]
}

/// How one character of a string is written inside a quoted textplan string.
pub open spec fn escape_char(c: char) -> Seq<char> {
    if c == '"' {
        seq!['\\', '"']
    } else if c == '\\' {
        seq!['\\', '\\']
    } else if c == '\n' {
        seq!['\\', 'n']
    } else if c == '\r' {
        seq!['\\', 'r']
    } else if c == '\t' {
        seq!['\\', 't']
    } else if is_ascii_control(c) {
        seq!['\\', 'u'] + hex4(c as u32)
    } else {
        seq![c]
    }
}

/// The escaped form of a sequence of characters, without the surrounding quotes.
pub open spec fn escape_body(s: Seq<char>) -> Seq<char>
    decreases s.len(),
{
    if s.len() == 0 {
        seq![]
    } else {
        escape_char(s[0]) + escape_body(s.drop_first())
    }
}

/// The quoted, escaped form of `s`.
pub open spec fn escaped(s: Seq<char>) -> Seq<char> {
    seq!['"'] + escape_body(s) + seq!['"']
}

/// Whether `c` is a hexadecimal digit (either case).
pub open spec fn is_hex_char(c: char) -> bool {
    (48 <= (c as u32) && (c as u32) <= 57) || (97 <= (c as u32) && (c as u32) <= 102) || (65
        <= (c as u32) && (c as u32) <= 70)
}

/// The value of a hexadecimal digit.
pub open spec fn hex_char_value(c: char) -> nat {
    if (c as u32) <= 57 {
        ((c as u32) - 48) as nat
    } else if (c as u32) <= 70 {
        ((c as u32) - 55) as nat
    } else {
        ((c as u32) - 87) as nat
    }
}

/// Whether every character of `cs` is a hexadecimal digit.
pub open spec fn all_hex(cs: Seq<char>) -> bool {
    forall|i: int| 0 <= i < cs.len() ==> #[trigger] is_hex_char(cs[i])
}

/// The value of a string of hexadecimal digits, most significant first.
pub open spec fn hex_value(cs: Seq<char>) -> nat
    decreases cs.len(),
{
    if cs.len() == 0 {
        0
    } else {
        hex_value(cs.drop_last()) * 16 + hex_char_value(cs.last())
    }
}

/// What `u32::from_str_radix(text, 16)` gives for a text of at most four characters:
/// an optional `+` followed by at least one hexadecimal digit and nothing else.
pub open spec fn parse_hex(cs: Seq<char>) -> Option<u32> {
    if cs.len() > 0 && all_hex(cs) {
        Some(hex_value(cs) as u32)
    } else if cs.len() > 1 && cs[0] == '+' && all_hex(cs.drop_first()) {
        Some(hex_value(cs.drop_first()) as u32)
    } else {
        None
    }
}

/// The character that an escape `\d` (for `d` other than `u`) stands for.
pub open spec fn unescape_simple(d: char) -> char {
    if d == 'n' {
        '\n'
    } else if d == 'r' {
        '\r'
    } else if d == 't' {
        '\t'
    } else {
        d
    }
}

/// Where a `\u` escape that starts at the beginning of `cs` ends: after at most four digits.
pub open spec fn unicode_escape_end(cs: Seq<char>) -> int {
    if cs.len() < 6 {
        cs.len() as int
    } else {
        6
    }
}

/// The characters a `\u` escape at the beginning of `cs` stands for: the decoded character,
/// or nothing when the digits do not name a character.
pub open spec fn unicode_escape_value(cs: Seq<char>) -> Seq<char> {
    match parse_hex(cs.subrange(2, unicode_escape_end(cs))) {
        Some(v) => if is_scalar_value(v) {
            seq![v as char]
        } else {
            seq![]
        },
        None => seq![],
    }
}

/// The unescaped form of the text between the quotes of a string literal.
pub open spec fn unescape_body(cs: Seq<char>) -> Seq<char>
    decreases cs.len(),
{
    if cs.len() == 0 {
        seq![]
    } else if cs[0] != '\\' {
        seq![cs[0]] + unescape_body(cs.drop_first())
    } else if cs.len() == 1 {
        seq![]
    } else if cs[1] == 'u' {
        unicode_escape_value(cs) + unescape_body(cs.skip(unicode_escape_end(cs)))
    } else {
        seq![unescape_simple(cs[1])] + unescape_body(cs.skip(2))
    }
}

/// Whether `s` is a quoted literal: at least two characters, a quote at each end.
pub open spec fn is_quoted(s: Seq<char>) -> bool {
    s.len() >= 2 && s[0] == '"' && s[s.len() - 1] == '"'
}

/// What `unescape_string` makes of `s`.
pub open spec fn unescaped(s: Seq<char>) -> Seq<char> {
    if is_quoted(s) {
        unescape_body(s.subrange(1, s.len() - 1))
    } else {
        s
    }
}

proof fn lemma_escape_body_append(a: Seq<char>, b: Seq<char>)
    ensures
        escape_body(a + b) == escape_body(a) + escape_body(b),
    decreases a.len(),
{
    if a.len() == 0 {
        assert(a + b =~= b);
    } else {
        assert((a + b).drop_first() =~= a.drop_first() + b);
        lemma_escape_body_append(a.drop_first(), b);
        assert(escape_body(a + b) =~= escape_char(a[0]) + escape_body(a.drop_first() + b));
    }
}

proof fn lemma_escape_body_push(s: Seq<char>, i: int)
    requires
        0 <= i < s.len(),
    ensures
        escape_body(s.take(i + 1)) == escape_body(s.take(i)) + escape_char(s[i]),
{
    assert(s.take(i + 1) =~= s.take(i) + seq![s[i]]);
    lemma_escape_body_append(s.take(i), seq![s[i]]);
    assert(seq![s[i]].drop_first() =~= Seq::<char>::empty());
    assert(escape_body(Seq::<char>::empty()) == Seq::<char>::empty());
    assert(escape_body(seq![s[i]]) == escape_char(s[i]) + escape_body(Seq::<char>::empty()));
    assert(escape_char(s[i]) + Seq::<char>::empty() =~= escape_char(s[i]));
}

/// Appends the escaped form of `c` to `out`.
fn push_escaped_char(out: &mut String, c: char)
    ensures
        final(out)@ == old(out)@ + escape_char(c),
{
    if c == '"' {
        out.append("\\\"");
    } else if c == '\\' {
        out.append("\\\\");
    } else if c == '\n' {
        out.append("\\n");
    } else if c == '\r' {
        out.append("\\r");
    } else if c == '\t' {
        out.append("\\t");
    } else if (c as u32) < 0x20 || (c as u32) == 0x7f {
        let v = c as u32;
        out.append("\\u");
        push_char(out, hex_digit_char((v / 4096) % 16));
        push_char(out, hex_digit_char((v / 256) % 16));
        push_char(out, hex_digit_char((v / 16) % 16));
        push_char(out, hex_digit_char(v % 16));
    } else {
        push_char(out, c);
    }
    proof {
        reveal_strlit("\\\"");
        reveal_strlit("\\\\");
        reveal_strlit("\\n");
        reveal_strlit("\\r");
        reveal_strlit("\\t");
        reveal_strlit("\\u");
    }
    assert(final(out)@ =~= old(out)@ + escape_char(c));
}

/// The lower-case hexadecimal digit for `d`.
fn hex_digit_char(d: u32) -> (c: char)
    requires
        d < 16,
    ensures
        c == hex_digit(d),
{
    if d < 10 {
        (48 + d) as u8 as char
    } else {
        (87 + d) as u8 as char
    }
}

/// Escapes a string for use in a textplan: surrounds it with quotes and escapes quotes,
/// backslashes, newlines, carriage returns, tabs and other ASCII control characters.
pub fn escape_string(s: &str) -> (r: String)
    ensures
        r@ == escaped(s@),
{
    let n = s.unicode_len();
    let mut result = String::new();
    push_char(&mut result, '"');
    let mut i: usize = 0;
    while i < n
        invariant
            n == s@.len(),
            i <= n,
            result@ == seq!['"'] + escape_body(s@.take(i as int)),
        decreases n - i,
    {
        let c = s.get_char(i);
        proof {
            lemma_escape_body_push(s@, i as int);
        }
        push_escaped_char(&mut result, c);
        i = i + 1;
        assert(result@ =~= seq!['"'] + escape_body(s@.take(i as int)));
    }
    assert(s@.take(n as int) =~= s@);
    push_char(&mut result, '"');
    result
}


/// `16` to the power `n`.
pub open spec fn pow16(n: nat) -> nat
    decreases n,
{
    if n == 0 {
        1
    } else {
        16 * pow16((n - 1) as nat)
    }
}

proof fn lemma_hex_char_value_bound(c: char)
    requires
        is_hex_char(c),
    ensures
        hex_char_value(c) < 16,
{
}

proof fn lemma_hex_value_bound(cs: Seq<char>)
    requires
        all_hex(cs),
    ensures
        hex_value(cs) < pow16(cs.len()),
    decreases cs.len(),
{
    if cs.len() > 0 {
        assert(all_hex(cs.drop_last())) by {
            assert forall|i: int| 0 <= i < cs.drop_last().len() implies #[trigger] is_hex_char(
                cs.drop_last()[i],
            ) by {
                assert(is_hex_char(cs[i]));
            }
        }
        lemma_hex_value_bound(cs.drop_last());
        assert(is_hex_char(cs[cs.len() - 1]));
        lemma_hex_char_value_bound(cs.last());
        let a = hex_value(cs.drop_last());
        let p = pow16((cs.len() - 1) as nat);
        assert(a * 16 + hex_char_value(cs.last()) < 16 * p) by (nonlinear_arith)
            requires
                a < p,
                hex_char_value(cs.last()) < 16,
        ;
    }
}

/// Whether `c` is a hexadecimal digit.
fn is_hex_digit_char(c: char) -> (b: bool)
    ensures
        b == is_hex_char(c),
{
    let v = c as u32;
    (48 <= v && v <= 57) || (97 <= v && v <= 102) || (65 <= v && v <= 70)
}

/// The value of the hexadecimal digit `c`.
fn hex_digit_value(c: char) -> (v: u32)
    requires
        is_hex_char(c),
    ensures
        v == hex_char_value(c),
        v < 16,
{
    let v = c as u32;
    if v <= 57 {
        v - 48
    } else if v <= 70 {
        v - 55
    } else {
        v - 87
    }
}

/// Parses the characters `from..to` of `s` as `u32::from_str_radix` does with radix 16.
fn parse_hex_range(s: &str, from: usize, to: usize) -> (r: Option<u32>)
    requires
        from <= to <= s@.len(),
        to - from <= 4,
    ensures
        r == parse_hex(s@.subrange(from as int, to as int)),
{
    let ghost cs = s@.subrange(from as int, to as int);
    if from == to {
        return None;
    }
    let mut start = from;
    if s.get_char(from) == '+' {
        if to - from < 2 {
            assert(!is_hex_char(cs[0]));
            return None;
        }
        start = from + 1;
        assert(!all_hex(cs)) by {
            assert(!is_hex_char(cs[0]));
        }
        assert(cs.drop_first() =~= s@.subrange(start as int, to as int));
    }
    let ghost digits = s@.subrange(start as int, to as int);
    let mut v: u32 = 0;
    let mut j = start;
    while j < to
        invariant
            from <= start <= j <= to <= s@.len(),
            start <= from + 1,
            to - from <= 4,
            cs == s@.subrange(from as int, to as int),
            start == from ==> s@[from as int] != '+',
            start == from + 1 ==> s@[from as int] == '+' && cs.drop_first() == digits,
            digits == s@.subrange(start as int, to as int),
            all_hex(s@.subrange(start as int, j as int)),
            v == hex_value(s@.subrange(start as int, j as int)),
        decreases to - j,
    {
        let c = s.get_char(j);
        if !is_hex_digit_char(c) {
            assert(!all_hex(digits)) by {
                assert(digits[j - start] == c);
            }
            assert(s@.subrange(from as int, to as int)[j - from] == c);
            return None;
        }
        let ghost prev = s@.subrange(start as int, j as int);
        let ghost next = s@.subrange(start as int, j + 1);
        assert(next.drop_last() =~= prev);
        proof {
            lemma_hex_value_bound(prev);
            assert(prev.len() <= 3);
            assert(pow16(0) == 1);
            assert(pow16(1) == 16);
            assert(pow16(2) == 256);
            assert(pow16(3) == 4096);
        }
        let d = hex_digit_value(c);
        v = v * 16 + d;
        j = j + 1;
        assert(all_hex(next)) by {
            assert forall|i: int| 0 <= i < next.len() implies #[trigger] is_hex_char(next[i]) by {
                if i < prev.len() {
                    assert(next[i] == prev[i]);
                }
            }
        }
    }
    proof {
        lemma_hex_value_bound(digits);
        assert(pow16(0) == 1);
        assert(pow16(1) == 16);
        assert(pow16(2) == 256);
        assert(pow16(3) == 4096);
        assert(pow16(4) == 65536);
    }
    Some(v)
}

/// Unescapes a string from a textplan. A quoted literal (two characters at least, a quote at
/// each end) loses its quotes and has its escapes decoded; any other string is kept as it is.
pub fn unescape_string(s: &str) -> (r: String)
    ensures
        r@ == unescaped(s@),
{
    let n = s.unicode_len();
    if n < 2 || s.get_char(0) != '"' || s.get_char(n - 1) != '"' {
        return String::from_str(s);
    }
    let end = n - 1;
    let ghost body = s@.subrange(1, end as int);
    let mut result = String::new();
    let mut i: usize = 1;
    assert(s@.subrange(1, end as int) =~= body);
    while i < end
        invariant_except_break
            n == s@.len(),
            end == n - 1,
            1 <= i <= end,
            body == s@.subrange(1, end as int),
            unescape_body(body) == result@ + unescape_body(s@.subrange(i as int, end as int)),
            i == end ==> s@.subrange(i as int, end as int) =~= Seq::<char>::empty(),
        ensures
            unescape_body(body) == result@,
        decreases end - i,
    {
        let ghost cs = s@.subrange(i as int, end as int);
        let c = s.get_char(i);
        if c != '\\' {
            push_char(&mut result, c);
            i = i + 1;
            assert(cs.drop_first() =~= s@.subrange(i as int, end as int));
            assert(unescape_body(body) =~= result@ + unescape_body(s@.subrange(i as int, end as int)));
        } else if i + 1 == end {
            assert(unescape_body(cs) =~= Seq::<char>::empty());
            assert(unescape_body(body) =~= result@);
            break;
        } else {
            let d = s.get_char(i + 1);
            if d == 'u' {
                let stop = if end - i < 6 {
                    end
                } else {
                    i + 6
                };
                assert(unicode_escape_end(cs) == stop - i);
                assert(cs.subrange(2, stop - i) =~= s@.subrange(i + 2, stop as int));
                let ghost before = result@;
                match parse_hex_range(s, i + 2, stop) {
                    Some(v) => {
                        match char_from_u32(v) {
                            Some(ch) => {
                                push_char(&mut result, ch);
                            },
                            None => {},
                        }
                    },
                    None => {},
                }
                assert(result@ =~= before + unicode_escape_value(cs));
                assert(cs.skip(stop - i) =~= s@.subrange(stop as int, end as int));
                i = stop;
                assert(unescape_body(body) =~= result@ + unescape_body(s@.subrange(i as int, end as int)));
            } else {
                let e = if d == 'n' {
                    '\n'
                } else if d == 'r' {
                    '\r'
                } else if d == 't' {
                    '\t'
                } else {
                    d
                };
                push_char(&mut result, e);
                i = i + 2;
                assert(cs.skip(2) =~= s@.subrange(i as int, end as int));
                assert(unescape_body(body) =~= result@ + unescape_body(s@.subrange(i as int, end as int)));
            }
        }
    }
    result
}

proof fn lemma_hex_digit_roundtrip(d: u32)
    requires
        d < 16,
    ensures
        is_hex_char(hex_digit(d)),
        hex_char_value(hex_digit(d)) == d,
{
}

proof fn lemma_hex4_roundtrip(v: u32)
    requires
        v < 128,
    ensures
        all_hex(hex4(v)),
        hex_value(hex4(v)) == v,
{
    let h = hex4(v);
    lemma_hex_digit_roundtrip((v / 4096) % 16);
    lemma_hex_digit_roundtrip((v / 256) % 16);
    lemma_hex_digit_roundtrip((v / 16) % 16);
    lemma_hex_digit_roundtrip(v % 16);
    assert(all_hex(h)) by {
        assert forall|i: int| 0 <= i < h.len() implies #[trigger] is_hex_char(h[i]) by {}
    }
    let h1 = seq![h[0]];
    let h2 = seq![h[0], h[1]];
    let h3 = seq![h[0], h[1], h[2]];
    assert(h1.drop_last() =~= Seq::<char>::empty());
    assert(h2.drop_last() =~= h1);
    assert(h3.drop_last() =~= h2);
    assert(h.drop_last() =~= h3);
    assert(hex_value(Seq::<char>::empty()) == 0);
    assert(hex_value(h1) == hex_char_value(h[0]));
    assert(hex_value(h2) == hex_value(h1) * 16 + hex_char_value(h[1]));
    assert(hex_value(h3) == hex_value(h2) * 16 + hex_char_value(h[2]));
    assert(hex_value(h) == hex_value(h3) * 16 + hex_char_value(h[3]));
    assert((v / 4096) % 16 == 0);
    assert((v / 256) % 16 == 0);
    assert(((v / 16) % 16) * 16 + v % 16 == v);
}

proof fn lemma_unescape_escape_char(c: char, rest: Seq<char>)
    ensures
        unescape_body(escape_char(c) + rest) == seq![c] + unescape_body(rest),
{
    let e = escape_char(c) + rest;
    if c == '"' || c == '\\' || c == '\n' || c == '\r' || c == '\t' {
        assert(e.skip(2) =~= rest);
    } else if is_ascii_control(c) {
        let v = c as u32;
        lemma_hex4_roundtrip(v);
        assert(e.subrange(2, 6) =~= hex4(v));
        assert(e.skip(6) =~= rest);
        assert(unicode_escape_end(e) == 6);
        assert(parse_hex(hex4(v)) == Some(v));
        assert((v as char) == c);
        assert(unicode_escape_value(e) =~= seq![c]);
    } else {
        assert(e.drop_first() =~= rest);
    }
}

/// Unescaping the escaped body of a character sequence gives the sequence back.
pub proof fn lemma_unescape_escape_body(s: Seq<char>)
    ensures
        unescape_body(escape_body(s)) == s,
    decreases s.len(),
{
    if s.len() == 0 {
        assert(escape_body(s) =~= Seq::<char>::empty());
    } else {
        lemma_unescape_escape_body(s.drop_first());
        lemma_unescape_escape_char(s[0], escape_body(s.drop_first()));
        assert(seq![s[0]] + s.drop_first() =~= s);
    }
}

/// Unescaping an escaped string gives back the string that was escaped: `unescape_string` undoes
/// `escape_string` on every input.
pub proof fn lemma_unescape_string_inverts_escape_string(s: Seq<char>)
    ensures
        unescaped(escaped(s)) == s,
{
    let e = escaped(s);
    assert(e.len() >= 2);
    assert(e[0] == '"');
    assert(e[e.len() - 1] == '"');
    assert(e.subrange(1, e.len() - 1) =~= escape_body(s));
    lemma_unescape_escape_body(s);
}

} // verus!
