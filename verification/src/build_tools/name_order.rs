//! Ordered sets of names, as the generator walks them: names in the order of `String`'s
//! `Ord` (the order of their UTF-8 bytes, which is the order of their code points).

use vstd::prelude::*;

use crate::textplan::common::text_ops::texts_view;
use crate::textplan::common::text_scan::text_equals;

verus! {

/// Whether `a` comes before `b`: at their first difference `a`'s character has the lower
/// code point, or `a` is a proper prefix of `b`.
pub open spec fn text_less(a: Seq<char>, b: Seq<char>) -> bool
    decreases a.len(),
{
    if a.len() == 0 {
        b.len() > 0
    } else if b.len() == 0 {
        false
    } else if a[0] != b[0] {
        (a[0] as int) < (b[0] as int)
    } else {
        text_less(a.drop_first(), b.drop_first())
    }
}

/// No name comes before itself.
pub proof fn lemma_text_less_irreflexive(a: Seq<char>)
    ensures
        !text_less(a, a),
    decreases a.len(),
{
    if a.len() > 0 {
        lemma_text_less_irreflexive(a.drop_first());
    }
}

/// Of two different names, exactly one comes first.
pub proof fn lemma_text_less_total(a: Seq<char>, b: Seq<char>)
    ensures
        a != b ==> (text_less(a, b) != text_less(b, a)),
        a == b ==> !text_less(a, b),
    decreases a.len(),
{
    if a == b {
        lemma_text_less_irreflexive(a);
    } else if a.len() > 0 && b.len() > 0 {
        if a[0] == b[0] {
            assert(a.drop_first() != b.drop_first()) by {
                if a.drop_first() == b.drop_first() {
                    assert(a =~= seq![a[0]] + a.drop_first());
                    assert(b =~= seq![b[0]] + b.drop_first());
                }
            }
            lemma_text_less_total(a.drop_first(), b.drop_first());
        } else {
            assert((a[0] as int) != (b[0] as int));
        }
    } else if a.len() == 0 && b.len() == 0 {
        assert(a =~= b);
    }
}

/// The order is transitive.
pub proof fn lemma_text_less_transitive(a: Seq<char>, b: Seq<char>, c: Seq<char>)
    requires
        text_less(a, b),
        text_less(b, c),
    ensures
        text_less(a, c),
    decreases a.len(),
{
    if a.len() > 0 && a[0] == b[0] && b[0] == c[0] {
        lemma_text_less_transitive(a.drop_first(), b.drop_first(), c.drop_first());
    }
}

/// Whether every name of `s` comes before every later one (so none occurs twice).
pub open spec fn strictly_sorted(s: Seq<Seq<char>>) -> bool {
    forall|i: int, j: int| 0 <= i < j < s.len() ==> text_less(#[trigger] s[i], #[trigger] s[j])
}

/// Whether `a` comes before `b` (`a < b` on strings).
pub fn precedes(a: &str, b: &str) -> (r: bool)
    ensures
        r == text_less(a@, b@),
{
    let n = a.unicode_len();
    let m = b.unicode_len();
    let mut i: usize = 0;
    assert(a@.skip(0) =~= a@);
    assert(b@.skip(0) =~= b@);
    while i < n && i < m
        invariant
            n == a@.len(),
            m == b@.len(),
            i <= n,
            i <= m,
            text_less(a@, b@) == text_less(a@.skip(i as int), b@.skip(i as int)),
        decreases n - i,
    {
        let x = a.get_char(i);
        let y = b.get_char(i);
        assert(a@.skip(i as int)[0] == x);
        assert(b@.skip(i as int)[0] == y);
        if x != y {
            return (x as u32) < (y as u32);
        }
        assert(a@.skip(i as int).drop_first() =~= a@.skip(i + 1));
        assert(b@.skip(i as int).drop_first() =~= b@.skip(i + 1));
        i = i + 1;
    }
    i < m
}

/// Whether the names of `names` include `name`.
pub fn contains_name(names: &Vec<String>, name: &str) -> (r: bool)
    ensures
        r == texts_view(names@).contains(name@),
{
    let ghost v = texts_view(names@);
    let mut i: usize = 0;
    while i < names.len()
        invariant
            i <= names@.len(),
            v == texts_view(names@),
            forall|k: int| 0 <= k < i ==> v[k] != name@,
        decreases names.len() - i,
    {
        if text_equals(names[i].as_str(), name) {
            assert(v[i as int] == name@);
            return true;
        }
        i += 1;
    }
    assert forall|k: int| 0 <= k < v.len() implies v[k] != name@ by {}
    false
}

/// Adds a name to a strictly sorted list of names, where it is not there yet, keeping
/// the list strictly sorted (`BTreeSet::insert`).
pub fn insert_name(names: &mut Vec<String>, name: String)
    requires
        strictly_sorted(texts_view(old(names)@)),
    ensures
        strictly_sorted(texts_view(final(names)@)),
        texts_view(final(names)@).to_set() == texts_view(old(names)@).to_set().insert(name@),
{
    let ghost v = texts_view(names@);
    let mut p: usize = 0;
    while p < names.len() && precedes(names[p].as_str(), name.as_str())
        invariant
            p <= names@.len(),
            v == texts_view(names@),
            strictly_sorted(v),
            forall|k: int| 0 <= k < p ==> text_less(#[trigger] v[k], name@),
        decreases names.len() - p,
    {
        p += 1;
    }
    if p < names.len() && text_equals(names[p].as_str(), name.as_str()) {
        assert(v.to_set().insert(name@) =~= v.to_set()) by {
            assert(v[p as int] == name@);
        }
        return;
    }
    proof {
        if p < v.len() {
            lemma_text_less_total(v[p as int], name@);
        }
    }
    let ghost x = name@;
    names.insert(p, name);
    let ghost w = texts_view(names@);
    assert(w =~= v.insert(p as int, x));
    assert forall|i: int, j: int| 0 <= i < j < w.len() implies text_less(
        #[trigger] w[i],
        #[trigger] w[j],
    ) by {
        if j < p {
            assert(w[i] == v[i] && w[j] == v[j]);
        } else if j == p {
            assert(w[i] == v[i]);
        } else if i == p {
            assert(w[j] == v[j - 1]);
            if j - 1 > p {
                assert(text_less(v[p as int], v[j - 1]));
                lemma_text_less_transitive(x, v[p as int], v[j - 1]);
            }
        } else if i < p {
            assert(w[i] == v[i] && w[j] == v[j - 1]);
            if j - 1 == p {
                lemma_text_less_transitive(v[i], x, v[p as int]);
            }
        } else {
            assert(w[i] == v[i - 1] && w[j] == v[j - 1]);
        }
    }
    assert(w.to_set() =~= v.to_set().insert(x)) by {
        assert forall|e: Seq<char>| w.to_set().contains(e) <==> v.to_set().insert(x).contains(
            e,
        ) by {
            if w.contains(e) {
                let k = choose|k: int| 0 <= k < w.len() && w[k] == e;
                if k < p {
                    assert(v[k] == e);
                } else if k > p {
                    assert(v[k - 1] == e);
                }
            }
            if v.contains(e) {
                let k = choose|k: int| 0 <= k < v.len() && v[k] == e;
                if k < p {
                    assert(w[k] == e);
                } else {
                    assert(w[k + 1] == e);
                }
            }
            if e == x {
                assert(w[p as int] == e);
            }
        }
    }
}

} // verus!
