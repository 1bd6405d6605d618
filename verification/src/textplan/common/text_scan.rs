//! Scanning helpers over character sequences: whitespace, trimming, searching, prefixes and
//! decimal integers, with the meaning that the corresponding `str` methods of std document.

use vstd::prelude::*;

verus! {

/// Whether `c` has the Unicode `White_Space` property, as `char::is_whitespace` decides.
pub open spec fn is_whitespace(c: char) -> bool {
    let v = c as u32;
    (0x09 <= v && v <= 0x0D) || v == 0x20 || v == 0x85 || v == 0xA0 || v == 0x1680 || (0x2000 <= v
        && v <= 0x200A) || v == 0x2028 || v == 0x2029 || v == 0x202F || v == 0x205F || v == 0x3000
}

/// Whether `c` is whitespace.
pub fn char_is_whitespace(c: char) -> (r: bool)
    ensures
        r == is_whitespace(c),
{
    let v = c as u32;
    (0x09 <= v && v <= 0x0D) || v == 0x20 || v == 0x85 || v == 0xA0 || v == 0x1680 || (0x2000 <= v
        && v <= 0x200A) || v == 0x2028 || v == 0x2029 || v == 0x202F || v == 0x205F || v == 0x3000
}

/// `s` without its leading whitespace.
pub open spec fn trim_start(s: Seq<char>) -> Seq<char>
    decreases s.len(),
{
    if s.len() > 0 && is_whitespace(s[0]) {
        trim_start(s.drop_first())
    } else {
        s
    }
}

/// `s` without its trailing whitespace.
pub open spec fn trim_end(s: Seq<char>) -> Seq<char>
    decreases s.len(),
{
    if s.len() > 0 && is_whitespace(s.last()) {
        trim_end(s.drop_last())
    } else {
        s
    }
}

/// `s` without leading and trailing whitespace (`str::trim`).
pub open spec fn trimmed(s: Seq<char>) -> Seq<char> {
    trim_end(trim_start(s))
}

proof fn lemma_trim_start_skip(s: Seq<char>, i: int)
    requires
        0 <= i <= s.len(),
        forall|k: int| 0 <= k < i ==> is_whitespace(#[trigger] s[k]),
    ensures
        trim_start(s) == trim_start(s.skip(i)),
    decreases i,
{
    if i > 0 {
        assert(is_whitespace(s[0]));
        assert(s.drop_first().skip(i - 1) =~= s.skip(i));
        assert forall|k: int| 0 <= k < i - 1 implies is_whitespace(#[trigger] s.drop_first()[k]) by {
            assert(s.drop_first()[k] == s[k + 1]);
        }
        lemma_trim_start_skip(s.drop_first(), i - 1);
    } else {
        assert(s.skip(0) =~= s);
    }
}

proof fn lemma_trim_end_take(s: Seq<char>, j: int)
    requires
        0 <= j <= s.len(),
        forall|k: int| j <= k < s.len() ==> is_whitespace(#[trigger] s[k]),
    ensures
        trim_end(s) == trim_end(s.take(j)),
    decreases s.len() - j,
{
    if j < s.len() {
        assert(is_whitespace(s.last()));
        assert(s.drop_last().take(j) =~= s.take(j));
        assert forall|k: int| j <= k < s.drop_last().len() implies is_whitespace(
            #[trigger] s.drop_last()[k],
        ) by {
            assert(s.drop_last()[k] == s[k]);
        }
        lemma_trim_end_take(s.drop_last(), j);
    } else {
        assert(s.take(j) =~= s);
    }
}

/// Removes leading and trailing whitespace (`str::trim`).
pub fn trim(s: &str) -> (r: &str)
    ensures
        r@ == trimmed(s@),
{
    let n = s.unicode_len();
    let mut i: usize = 0;
    while i < n && char_is_whitespace(s.get_char(i))
        invariant
            n == s@.len(),
            i <= n,
            forall|k: int| 0 <= k < i ==> is_whitespace(#[trigger] s@[k]),
        decreases n - i,
    {
        i = i + 1;
    }
    proof {
        lemma_trim_start_skip(s@, i as int);
    }
    let rest = s.substring_char(i, n);
    assert(rest@ =~= s@.skip(i as int));
    if i < n {
        assert(trim_start(rest@) == rest@);
    } else {
        assert(rest@.len() == 0);
    }
    let m = rest.unicode_len();
    let mut j: usize = m;
    while j > 0 && char_is_whitespace(rest.get_char(j - 1))
        invariant
            m == rest@.len(),
            j <= m,
            forall|k: int| j <= k < m ==> is_whitespace(#[trigger] rest@[k]),
        decreases j,
    {
        j = j - 1;
    }
    proof {
        lemma_trim_end_take(rest@, j as int);
    }
    let r = rest.substring_char(0, j);
    assert(r@ =~= rest@.take(j as int));
    if j > 0 {
        assert(trim_end(r@) == r@);
    }
    r
}

/// The index of the first occurrence of `c` in `s` (`str::find` with a `char`, counted in
/// characters).
pub open spec fn find_char(s: Seq<char>, c: char) -> Option<int>
    decreases s.len(),
{
    if s.len() == 0 {
        None
    } else if s[0] == c {
        Some(0)
    } else {
        match find_char(s.drop_first(), c) {
            Some(i) => Some(i + 1),
            None => None,
        }
    }
}

pub proof fn lemma_find_char(s: Seq<char>, c: char, i: int)
    requires
        0 <= i <= s.len(),
        forall|k: int| 0 <= k < i ==> #[trigger] s[k] != c,
    ensures
        i < s.len() && s[i] == c ==> find_char(s, c) == Some(i),
        i == s.len() ==> find_char(s, c) is None,
    decreases i,
{
    if i > 0 {
        assert forall|k: int| 0 <= k < i - 1 implies #[trigger] s.drop_first()[k] != c by {
            assert(s.drop_first()[k] == s[k + 1]);
        }
        lemma_find_char(s.drop_first(), c, i - 1);
        assert(s[0] != c);
    }
}

/// Finds the first occurrence of `c` in `s`.
pub fn find(s: &str, c: char) -> (r: Option<usize>)
    ensures
        r matches Some(i) ==> find_char(s@, c) == Some(i as int) && i < s@.len() && s@[i as int]
            == c,
        r is None ==> find_char(s@, c) is None,
{
    let n = s.unicode_len();
    let mut i: usize = 0;
    while i < n
        invariant
            n == s@.len(),
            i <= n,
            forall|k: int| 0 <= k < i ==> #[trigger] s@[k] != c,
        decreases n - i,
    {
        if s.get_char(i) == c {
            proof {
                lemma_find_char(s@, c, i as int);
            }
            return Some(i);
        }
        i = i + 1;
    }
    proof {
        lemma_find_char(s@, c, i as int);
    }
    None
}

/// Whether `s` starts with `p`.
pub open spec fn has_prefix(s: Seq<char>, p: Seq<char>) -> bool {
    p.len() <= s.len() && s.take(p.len() as int) == p
}

/// Whether `s` ends with `p`.
pub open spec fn has_suffix(s: Seq<char>, p: Seq<char>) -> bool {
    p.len() <= s.len() && s.skip(s.len() - p.len()) == p
}

/// Whether `s` starts with `p` (`str::starts_with`).
pub fn starts_with(s: &str, p: &str) -> (r: bool)
    ensures
        r == has_prefix(s@, p@),
{
    let n = s.unicode_len();
    let m = p.unicode_len();
    if m > n {
        return false;
    }
    let mut i: usize = 0;
    while i < m
        invariant
            n == s@.len(),
            m == p@.len(),
            m <= n,
            i <= m,
            forall|k: int| 0 <= k < i ==> s@[k] == p@[k],
        decreases m - i,
    {
        if s.get_char(i) != p.get_char(i) {
            assert(s@.take(m as int)[i as int] != p@[i as int]);
            return false;
        }
        i = i + 1;
    }
    assert(s@.take(m as int) =~= p@);
    true
}

/// Whether `s` ends with `p` (`str::ends_with`).
pub fn ends_with(s: &str, p: &str) -> (r: bool)
    ensures
        r == has_suffix(s@, p@),
{
    let n = s.unicode_len();
    let m = p.unicode_len();
    if m > n {
        return false;
    }
    let off = n - m;
    let mut i: usize = 0;
    while i < m
        invariant
            n == s@.len(),
            m == p@.len(),
            m <= n,
            off == n - m,
            i <= m,
            forall|k: int| 0 <= k < i ==> s@[off + k] == p@[k],
        decreases m - i,
    {
        if s.get_char(off + i) != p.get_char(i) {
            assert(s@.skip(off as int)[i as int] != p@[i as int]);
            return false;
        }
        i = i + 1;
    }
    assert(s@.skip(off as int) =~= p@);
    true
}

/// Whether two strings hold the same characters (`str::eq`).
pub fn text_equals(a: &str, b: &str) -> (r: bool)
    ensures
        r == (a@ == b@),
{
    let n = a.unicode_len();
    if n != b.unicode_len() {
        return false;
    }
    let mut i: usize = 0;
    while i < n
        invariant
            n == a@.len(),
            n == b@.len(),
            i <= n,
            forall|k: int| 0 <= k < i ==> a@[k] == b@[k],
        decreases n - i,
    {
        if a.get_char(i) != b.get_char(i) {
            return false;
        }
        i = i + 1;
    }
    assert(a@ =~= b@);
    true
}

/// Trimming never makes a sequence longer.
pub proof fn lemma_trimmed_len(s: Seq<char>)
    ensures
        trimmed(s).len() <= s.len(),
{
    lemma_trim_start_len(s);
    lemma_trim_end_len(trim_start(s));
}

proof fn lemma_trim_start_len(s: Seq<char>)
    ensures
        trim_start(s).len() <= s.len(),
    decreases s.len(),
{
    if s.len() > 0 && is_whitespace(s[0]) {
        lemma_trim_start_len(s.drop_first());
    }
}

proof fn lemma_trim_end_len(s: Seq<char>)
    ensures
        trim_end(s).len() <= s.len(),
    decreases s.len(),
{
    if s.len() > 0 && is_whitespace(s.last()) {
        lemma_trim_end_len(s.drop_last());
    }
}

/// Whether `c` is an ASCII decimal digit.
pub open spec fn is_digit(c: char) -> bool {
    48 <= (c as u32) && (c as u32) <= 57
}

/// The value of a string of decimal digits.
pub open spec fn digits_value(cs: Seq<char>) -> nat
    decreases cs.len(),
{
    if cs.len() == 0 {
        0
    } else {
        digits_value(cs.drop_last()) * 10 + ((cs.last() as u32) - 48) as nat
    }
}

/// Whether every character of `cs` is a decimal digit.
pub open spec fn all_digits(cs: Seq<char>) -> bool {
    forall|i: int| 0 <= i < cs.len() ==> #[trigger] is_digit(cs[i])
}

/// What `str::parse::<i32>` gives: an optional sign and at least one decimal digit, and a
/// value that fits in an `i32`.
pub open spec fn parse_i32_spec(cs: Seq<char>) -> Option<i32> {
    if cs.len() > 0 && all_digits(cs) {
        if digits_value(cs) <= i32::MAX {
            Some(digits_value(cs) as i32)
        } else {
            None
        }
    } else if cs.len() > 1 && cs[0] == '+' && all_digits(cs.drop_first()) {
        if digits_value(cs.drop_first()) <= i32::MAX {
            Some(digits_value(cs.drop_first()) as i32)
        } else {
            None
        }
    } else if cs.len() > 1 && cs[0] == '-' && all_digits(cs.drop_first()) {
        if digits_value(cs.drop_first()) <= 0x8000_0000 {
            Some((0 - digits_value(cs.drop_first())) as i32)
        } else {
            None
        }
    } else {
        None
    }
}

/// Reads a non-empty string of decimal digits whose value is at most `limit`.
fn parse_digits(d: &str, limit: u64) -> (r: Option<u64>)
    requires
        d@.len() > 0,
        9 <= limit <= 0x8000_0000,
    ensures
        r == (if all_digits(d@) && digits_value(d@) <= limit {
            Some(digits_value(d@) as u64)
        } else {
            None::<u64>
        }),
{
    let n = d.unicode_len();
    let mut v: u64 = 0;
    let mut i: usize = 0;
    while i < n
        invariant
            n == d@.len(),
            i <= n,
            9 <= limit <= 0x8000_0000,
            all_digits(d@.take(i as int)),
            v == digits_value(d@.take(i as int)),
            v <= limit,
        decreases n - i,
    {
        let c = d.get_char(i);
        let cv = c as u32;
        let ghost prev = d@.take(i as int);
        let ghost next = d@.take(i + 1);
        assert(next.drop_last() =~= prev);
        if cv < 48 || cv > 57 {
            assert(!is_digit(d@[i as int]));
            return None;
        }
        let dv = (cv - 48) as u64;
        if v > (limit - dv) / 10 {
            assert(digits_value(next) > limit);
            proof {
                if all_digits(d@) {
                    lemma_digits_value_prefix_monotone(d@, i + 1);
                }
            }
            return None;
        }
        v = v * 10 + dv;
        i = i + 1;
        assert(all_digits(next)) by {
            assert forall|k: int| 0 <= k < next.len() implies #[trigger] is_digit(next[k]) by {
                if k < prev.len() {
                    assert(next[k] == prev[k]);
                }
            }
        }
    }
    assert(d@.take(n as int) =~= d@);
    Some(v)
}

/// Parses a decimal `i32` (`str::parse::<i32>`).
pub fn parse_i32(s: &str) -> (r: Option<i32>)
    ensures
        r == parse_i32_spec(s@),
{
    let n = s.unicode_len();
    if n == 0 {
        return None;
    }
    let first = s.get_char(0);
    if first == '-' || first == '+' {
        if n == 1 {
            assert(!is_digit(s@[0]));
            return None;
        }
        let digits = s.substring_char(1, n);
        assert(digits@ =~= s@.drop_first());
        assert(!is_digit(s@[0]));
        assert(!all_digits(s@));
        if first == '-' {
            match parse_digits(digits, 0x8000_0000) {
                Some(v) => {
                    if v == 0x8000_0000 {
                        Some(i32::MIN)
                    } else {
                        Some(-(v as i32))
                    }
                },
                None => None,
            }
        } else {
            match parse_digits(digits, 0x7fff_ffff) {
                Some(v) => Some(v as i32),
                None => None,
            }
        }
    } else {
        match parse_digits(s, 0x7fff_ffff) {
            Some(v) => Some(v as i32),
            None => None,
        }
    }
}

proof fn lemma_digits_value_prefix_monotone(cs: Seq<char>, k: int)
    requires
        0 <= k <= cs.len(),
        all_digits(cs),
    ensures
        digits_value(cs.take(k)) <= digits_value(cs),
    decreases cs.len() - k,
{
    if k < cs.len() {
        assert(cs.drop_last().take(k) =~= cs.take(k));
        assert(all_digits(cs.drop_last())) by {
            assert forall|i: int| 0 <= i < cs.drop_last().len() implies #[trigger] is_digit(
                cs.drop_last()[i],
            ) by {
                assert(cs.drop_last()[i] == cs[i]);
            }
        }
        lemma_digits_value_prefix_monotone(cs.drop_last(), k);
        assert(is_digit(cs[cs.len() - 1]));
    } else {
        assert(cs.take(k) =~= cs);
    }
}

/// What `str::parse` gives for a signed integer type of the range `lo ..= hi`: an optional
/// sign and at least one decimal digit, and a value in the range.
pub open spec fn parsed_int(cs: Seq<char>, lo: int, hi: int) -> Option<int> {
    if cs.len() > 0 && all_digits(cs) {
        if digits_value(cs) <= hi {
            Some(digits_value(cs) as int)
        } else {
            None
        }
    } else if cs.len() > 1 && cs[0] == '+' && all_digits(cs.drop_first()) {
        if digits_value(cs.drop_first()) <= hi {
            Some(digits_value(cs.drop_first()) as int)
        } else {
            None
        }
    } else if cs.len() > 1 && cs[0] == '-' && all_digits(cs.drop_first()) {
        if digits_value(cs.drop_first()) <= -lo {
            Some(-digits_value(cs.drop_first()))
        } else {
            None
        }
    } else {
        None
    }
}

/// Reads a non-empty string of decimal digits whose value is at most `limit`.
fn parse_wide_digits(d: &str, limit: u128) -> (r: Option<u128>)
    requires
        d@.len() > 0,
        9 <= limit <= 0x8000_0000_0000_0000_0000_0000_0000_0000,
    ensures
        r == (if all_digits(d@) && digits_value(d@) <= limit {
            Some(digits_value(d@) as u128)
        } else {
            None::<u128>
        }),
{
    let n = d.unicode_len();
    let mut v: u128 = 0;
    let mut i: usize = 0;
    while i < n
        invariant
            n == d@.len(),
            i <= n,
            9 <= limit <= 0x8000_0000_0000_0000_0000_0000_0000_0000,
            all_digits(d@.take(i as int)),
            v == digits_value(d@.take(i as int)),
            v <= limit,
        decreases n - i,
    {
        let c = d.get_char(i);
        let cv = c as u32;
        let ghost prev = d@.take(i as int);
        let ghost next = d@.take(i + 1);
        assert(next.drop_last() =~= prev);
        if cv < 48 || cv > 57 {
            assert(!is_digit(d@[i as int]));
            return None;
        }
        let dv = (cv - 48) as u128;
        if v > (limit - dv) / 10 {
            assert(digits_value(next) > limit);
            proof {
                if all_digits(d@) {
                    lemma_digits_value_prefix_monotone(d@, i + 1);
                }
            }
            return None;
        }
        v = v * 10 + dv;
        i = i + 1;
        assert(all_digits(next)) by {
            assert forall|k: int| 0 <= k < next.len() implies #[trigger] is_digit(next[k]) by {
                if k < prev.len() {
                    assert(next[k] == prev[k]);
                }
            }
        }
    }
    assert(d@.take(n as int) =~= d@);
    Some(v)
}

/// Parses a decimal `i64` (`str::parse::<i64>`).
pub fn parse_i64(s: &str) -> (r: Option<i64>)
    ensures
        r == match parsed_int(s@, i64::MIN as int, i64::MAX as int) {
            Some(v) => Some(v as i64),
            None => None::<i64>,
        },
{
    let n = s.unicode_len();
    if n == 0 {
        return None;
    }
    let first = s.get_char(0);
    if first == '-' || first == '+' {
        if n == 1 {
            assert(!is_digit(s@[0]));
            return None;
        }
        let digits = s.substring_char(1, n);
        assert(digits@ =~= s@.drop_first());
        assert(!is_digit(s@[0]));
        assert(!all_digits(s@));
        if first == '-' {
            match parse_wide_digits(digits, 0x8000_0000_0000_0000) {
                Some(v) => {
                    if v == 0x8000_0000_0000_0000 {
                        Some(i64::MIN)
                    } else {
                        Some(-(v as i64))
                    }
                },
                None => None,
            }
        } else {
            match parse_wide_digits(digits, 0x7fff_ffff_ffff_ffff) {
                Some(v) => Some(v as i64),
                None => None,
            }
        }
    } else {
        match parse_wide_digits(s, 0x7fff_ffff_ffff_ffff) {
            Some(v) => Some(v as i64),
            None => None,
        }
    }
}

/// Parses a decimal `i128` (`str::parse::<i128>`).
pub fn parse_i128(s: &str) -> (r: Option<i128>)
    ensures
        r == match parsed_int(s@, i128::MIN as int, i128::MAX as int) {
            Some(v) => Some(v as i128),
            None => None::<i128>,
        },
{
    let n = s.unicode_len();
    if n == 0 {
        return None;
    }
    let first = s.get_char(0);
    if first == '-' || first == '+' {
        if n == 1 {
            assert(!is_digit(s@[0]));
            return None;
        }
        let digits = s.substring_char(1, n);
        assert(digits@ =~= s@.drop_first());
        assert(!is_digit(s@[0]));
        assert(!all_digits(s@));
        if first == '-' {
            match parse_wide_digits(digits, 0x8000_0000_0000_0000_0000_0000_0000_0000) {
                Some(v) => {
                    if v == 0x8000_0000_0000_0000_0000_0000_0000_0000 {
                        Some(i128::MIN)
                    } else {
                        Some(-(v as i128))
                    }
                },
                None => None,
            }
        } else {
            match parse_wide_digits(digits, 0x7fff_ffff_ffff_ffff_ffff_ffff_ffff_ffff) {
                Some(v) => Some(v as i128),
                None => None,
            }
        }
    } else {
        match parse_wide_digits(s, 0x7fff_ffff_ffff_ffff_ffff_ffff_ffff_ffff) {
            Some(v) => Some(v as i128),
            None => None,
        }
    }
}

} // verus!
