//! Small character and string operations of std that the rest of the crate builds on.

use vstd::prelude::*;

verus! {

/// Appends one character to a string (`String::push`).
#[verifier::external_body]
pub(crate) fn push_char(s: &mut String, c: char)
    ensures
        final(s)@ == old(s)@.push(c),
{
    s.push(c);
}

/// Whether `v` is a Unicode scalar value, that is, a valid `char`.
pub open spec fn is_scalar_value(v: u32) -> bool {
    v < 0xD800 || (0xE000 <= v && v <= 0x10FFFF)
}

/// Converts a code point to a `char` (`char::from_u32`): `Some` exactly for scalar values.
#[verifier::external_body]
pub(crate) fn char_from_u32(v: u32) -> (r: Option<char>)
    ensures
        r is Some <==> is_scalar_value(v),
        r matches Some(c) ==> c as u32 == v && c == v as char,
{
    char::from_u32(v)
}

/// `a` followed by `b`, as a new string.
pub fn concatenated(a: &str, b: &str) -> (r: String)
    ensures
        r@ == a@ + b@,
{
    let mut r = String::from_str(a);
    r.append(b);
    r
}

/// What `str::to_lowercase` gives for a text: each character replaced by its lower-case
/// mapping under the Unicode tables of std.
pub uninterp spec fn lowercased(s: Seq<char>) -> Seq<char>;

/// The lower-case form of `s` (`str::to_lowercase`).
#[verifier::external_body]
pub(crate) fn to_lowercase(s: &str) -> (r: String)
    ensures
        r@ == lowercased(s@),
{
    s.to_lowercase()
}

/// The texts of a list of strings.
pub open spec fn texts_view(v: Seq<String>) -> Seq<Seq<char>> {
    v.map_values(|s: String| s@)
}

/// Appends copies of the strings of `src` to `dst`.
pub fn extend_texts(dst: &mut Vec<String>, src: &[String])
    ensures
        texts_view(final(dst)@) == texts_view(old(dst)@) + texts_view(src@),
{
    let mut i: usize = 0;
    while i < src.len()
        invariant
            i <= src.len(),
            texts_view(dst@) == texts_view(old(dst)@) + texts_view(src@.take(i as int)),
        decreases src.len() - i,
    {
        let ghost before = dst@;
        let text = src[i].clone();
        dst.push(text);
        assert(texts_view(dst@) =~= texts_view(before).push(src@[i as int]@));
        assert(src@.take(i + 1) =~= src@.take(i as int).push(src@[i as int]));
        assert(texts_view(src@.take(i + 1)) =~= texts_view(src@.take(i as int)).push(
            src@[i as int]@,
        ));
        assert(texts_view(dst@) =~= texts_view(old(dst)@) + texts_view(src@.take(i + 1)));
        i += 1;
    }
    assert(src@.take(src.len() as int) =~= src@);
}

/// Copies of the strings of `src`.
pub fn copy_texts(src: &[String]) -> (r: Vec<String>)
    ensures
        texts_view(r@) == texts_view(src@),
{
    let mut r: Vec<String> = Vec::new();
    extend_texts(&mut r, src);
    assert(texts_view(r@) =~= texts_view(src@));
    r
}

} // verus!
