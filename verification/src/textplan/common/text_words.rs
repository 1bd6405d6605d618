//! Splitting text into whitespace-separated words, and trimming given characters from the
//! ends of a word, with the meaning that `str::split_whitespace` and `str::trim_matches`
//! document.

use vstd::prelude::*;

use crate::textplan::common::text_scan::{char_is_whitespace, is_whitespace};

verus! {

/// `s` without the characters satisfying `p` at its start.
pub open spec fn strip_start_where(s: Seq<char>, p: spec_fn(char) -> bool) -> Seq<char>
    decreases s.len(),
{
    if s.len() > 0 && p(s[0]) {
        strip_start_where(s.drop_first(), p)
    } else {
        s
    }
}

/// `s` without the characters satisfying `p` at its end.
pub open spec fn strip_end_where(s: Seq<char>, p: spec_fn(char) -> bool) -> Seq<char>
    decreases s.len(),
{
    if s.len() > 0 && p(s.last()) {
        strip_end_where(s.drop_last(), p)
    } else {
        s
    }
}

/// Whether `c` is a curly brace.
pub open spec fn is_brace(c: char) -> bool {
    c == '{' || c == '}'
}

/// The characters trimmed: semicolons, or else curly braces.
pub open spec fn strip_pred(semicolons: bool) -> spec_fn(char) -> bool {
    |c: char|
        if semicolons {
            c == ';'
        } else {
            is_brace(c)
        }
}

/// `s` without the curly braces at either end (`trim_matches(|c| c == '{' || c == '}')`).
pub open spec fn brace_trimmed(s: Seq<char>) -> Seq<char> {
    strip_end_where(strip_start_where(s, strip_pred(false)), strip_pred(false))
}

/// `s` without the semicolons at its end (`trim_end_matches(';')`).
pub open spec fn semicolons_trimmed(s: Seq<char>) -> Seq<char> {
    strip_end_where(s, strip_pred(true))
}

/// Whether `c` is one of the characters trimmed.
fn strip_char(c: char, semicolons: bool) -> (r: bool)
    ensures
        r == strip_pred(semicolons)(c),
{
    if semicolons {
        c == ';'
    } else {
        c == '{' || c == '}'
    }
}

proof fn lemma_strip_start_skip(s: Seq<char>, p: spec_fn(char) -> bool, i: int)
    requires
        0 <= i <= s.len(),
        forall|k: int| 0 <= k < i ==> p(#[trigger] s[k]),
    ensures
        strip_start_where(s, p) == strip_start_where(s.skip(i), p),
    decreases i,
{
    if i > 0 {
        assert(p(s[0]));
        assert(s.drop_first().skip(i - 1) =~= s.skip(i));
        assert forall|k: int| 0 <= k < i - 1 implies p(#[trigger] s.drop_first()[k]) by {
            assert(s.drop_first()[k] == s[k + 1]);
        }
        lemma_strip_start_skip(s.drop_first(), p, i - 1);
    } else {
        assert(s.skip(0) =~= s);
    }
}

proof fn lemma_strip_end_take(s: Seq<char>, p: spec_fn(char) -> bool, j: int)
    requires
        0 <= j <= s.len(),
        forall|k: int| j <= k < s.len() ==> p(#[trigger] s[k]),
    ensures
        strip_end_where(s, p) == strip_end_where(s.take(j), p),
    decreases s.len() - j,
{
    if j < s.len() {
        assert(p(s.last()));
        assert(s.drop_last().take(j) =~= s.take(j));
        assert forall|k: int| j <= k < s.drop_last().len() implies p(#[trigger] s.drop_last()[k]) by {
            assert(s.drop_last()[k] == s[k]);
        }
        lemma_strip_end_take(s.drop_last(), p, j);
    } else {
        assert(s.take(j) =~= s);
    }
}

/// `s` without the trimmed characters at its end.
fn strip_end_chars(s: &str, semicolons: bool) -> (r: &str)
    ensures
        r@ == strip_end_where(s@, strip_pred(semicolons)),
{
    let ghost p = strip_pred(semicolons);
    let m = s.unicode_len();
    let mut j: usize = m;
    while j > 0 && strip_char(s.get_char(j - 1), semicolons)
        invariant
            m == s@.len(),
            j <= m,
            p == strip_pred(semicolons),
            forall|k: int| j <= k < m ==> p(#[trigger] s@[k]),
        decreases j,
    {
        j = j - 1;
    }
    proof {
        lemma_strip_end_take(s@, p, j as int);
    }
    let r = s.substring_char(0, j);
    assert(r@ =~= s@.take(j as int));
    if j > 0 {
        assert(!p(r@.last()));
        assert(strip_end_where(r@, p) == r@);
    }
    r
}

/// Removes the curly braces at both ends of `s`.
pub fn trim_braces(s: &str) -> (r: &str)
    ensures
        r@ == brace_trimmed(s@),
{
    let ghost p = strip_pred(false);
    let n = s.unicode_len();
    let mut i: usize = 0;
    while i < n && strip_char(s.get_char(i), false)
        invariant
            n == s@.len(),
            i <= n,
            p == strip_pred(false),
            forall|k: int| 0 <= k < i ==> p(#[trigger] s@[k]),
        decreases n - i,
    {
        i = i + 1;
    }
    proof {
        lemma_strip_start_skip(s@, p, i as int);
    }
    let rest = s.substring_char(i, n);
    assert(rest@ =~= s@.skip(i as int));
    if i < n {
        assert(!p(rest@[0]));
        assert(strip_start_where(rest@, p) == rest@);
    } else {
        assert(rest@.len() == 0);
    }
    strip_end_chars(rest, false)
}

/// Removes the semicolons at the end of `s`.
pub fn trim_end_semicolons(s: &str) -> (r: &str)
    ensures
        r@ == semicolons_trimmed(s@),
{
    strip_end_chars(s, true)
}

/// The whitespace-separated words of `s`, read from the left, with the word being read so
/// far (`current`) and the words already complete (`done`).
pub open spec fn words_from(s: Seq<char>, current: Seq<char>, done: Seq<Seq<char>>) -> Seq<
    Seq<char>,
>
    decreases s.len(),
{
    if s.len() == 0 {
        if current.len() > 0 {
            done.push(current)
        } else {
            done
        }
    } else if is_whitespace(s[0]) {
        words_from(
            s.drop_first(),
            Seq::empty(),
            if current.len() > 0 {
                done.push(current)
            } else {
                done
            },
        )
    } else {
        words_from(s.drop_first(), current.push(s[0]), done)
    }
}

/// The whitespace-separated words of `s` (`str::split_whitespace`).
pub open spec fn words(s: Seq<char>) -> Seq<Seq<char>> {
    words_from(s, Seq::empty(), Seq::empty())
}

/// The texts of a list of string slices.
pub open spec fn slices_view(v: Seq<&str>) -> Seq<Seq<char>> {
    v.map_values(|w: &str| w@)
}

/// Splits `s` into its whitespace-separated words.
pub fn split_whitespace(s: &str) -> (r: Vec<&str>)
    ensures
        slices_view(r@) == words(s@),
{
    let n = s.unicode_len();
    let ghost cs = s@;
    let mut result: Vec<&str> = Vec::new();
    let mut start: usize = 0;
    let mut i: usize = 0;
    assert(cs.skip(0) =~= cs);
    assert(cs.subrange(0, 0) =~= Seq::<char>::empty());
    assert(slices_view(result@) =~= Seq::<Seq<char>>::empty());
    while i < n
        invariant
            n == cs.len(),
            cs == s@,
            start <= i <= n,
            words(cs) == words_from(cs.skip(i as int), cs.subrange(start as int, i as int), slices_view(result@)),
        decreases n - i,
    {
        let c = s.get_char(i);
        assert(cs.skip(i as int).drop_first() =~= cs.skip(i + 1));
        assert(cs.skip(i as int)[0] == c);
        if char_is_whitespace(c) {
            if start < i {
                let w = s.substring_char(start, i);
                let ghost before = result@;
                result.push(w);
                assert(slices_view(result@) =~= slices_view(before).push(cs.subrange(start as int, i as int)));
            }
            start = i + 1;
            assert(cs.subrange(start as int, i + 1) =~= Seq::<char>::empty());
        } else {
            assert(cs.subrange(start as int, i + 1) =~= cs.subrange(start as int, i as int).push(c));
        }
        i = i + 1;
    }
    if start < n {
        let w = s.substring_char(start, n);
        let ghost before = result@;
        result.push(w);
        assert(slices_view(result@) =~= slices_view(before).push(cs.subrange(start as int, n as int)));
    }
    assert(cs.skip(n as int) =~= Seq::<char>::empty());
    result
}

/// The pieces of `s` between the occurrences of `sep`, read from the left, with the piece
/// being read so far (`current`) and the pieces already complete (`done`).
pub open spec fn pieces_from(s: Seq<char>, sep: char, current: Seq<char>, done: Seq<Seq<char>>) -> Seq<
    Seq<char>,
>
    decreases s.len(),
{
    if s.len() == 0 {
        done.push(current)
    } else if s[0] == sep {
        pieces_from(s.drop_first(), sep, Seq::empty(), done.push(current))
    } else {
        pieces_from(s.drop_first(), sep, current.push(s[0]), done)
    }
}

/// The pieces of `s` between the occurrences of `sep` (`str::split` with a `char`); there is
/// always one more piece than there are separators.
pub open spec fn pieces(s: Seq<char>, sep: char) -> Seq<Seq<char>> {
    pieces_from(s, sep, Seq::empty(), Seq::empty())
}

/// Splits `s` at each occurrence of `sep`.
pub fn split_char(s: &str, sep: char) -> (r: Vec<&str>)
    ensures
        slices_view(r@) == pieces(s@, sep),
{
    let n = s.unicode_len();
    let ghost cs = s@;
    let mut result: Vec<&str> = Vec::new();
    let mut start: usize = 0;
    let mut i: usize = 0;
    assert(cs.skip(0) =~= cs);
    assert(cs.subrange(0, 0) =~= Seq::<char>::empty());
    assert(slices_view(result@) =~= Seq::<Seq<char>>::empty());
    while i < n
        invariant
            n == cs.len(),
            cs == s@,
            start <= i <= n,
            pieces(cs, sep) == pieces_from(
                cs.skip(i as int),
                sep,
                cs.subrange(start as int, i as int),
                slices_view(result@),
            ),
        decreases n - i,
    {
        let c = s.get_char(i);
        assert(cs.skip(i as int).drop_first() =~= cs.skip(i + 1));
        assert(cs.skip(i as int)[0] == c);
        if c == sep {
            let w = s.substring_char(start, i);
            let ghost before = result@;
            result.push(w);
            assert(slices_view(result@) =~= slices_view(before).push(
                cs.subrange(start as int, i as int),
            ));
            start = i + 1;
            assert(cs.subrange(start as int, i + 1) =~= Seq::<char>::empty());
        } else {
            assert(cs.subrange(start as int, i + 1) =~= cs.subrange(start as int, i as int).push(
                c,
            ));
        }
        i = i + 1;
    }
    let w = s.substring_char(start, n);
    let ghost before = result@;
    result.push(w);
    assert(slices_view(result@) =~= slices_view(before).push(cs.subrange(start as int, n as int)));
    assert(cs.skip(n as int) =~= Seq::<char>::empty());
    result
}

} // verus!
