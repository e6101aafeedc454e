//! Ordered sets of strings: the order of `String` (code point by code point, a proper
//! prefix first) and sorted vectors without duplicates, which list a set of strings the
//! way a `BTreeSet<String>` iterates it.
use vstd::prelude::*;

use crate::text::{string_from, views};

verus! {

/// The order of `String`: lexicographic by characters, a proper prefix before the longer one.
pub open spec fn chars_lt(a: Seq<char>, b: Seq<char>) -> bool
    decreases a.len(),
{
    if a.len() == 0 {
        b.len() > 0
    } else if b.len() == 0 {
        false
    } else if a[0] != b[0] {
        a[0] < b[0]
    } else {
        chars_lt(a.drop_first(), b.drop_first())
    }
}

/// No string is below itself.
pub proof fn lemma_lt_irreflexive(a: Seq<char>)
    ensures
        !chars_lt(a, a),
    decreases a.len(),
{
    if a.len() > 0 {
        lemma_lt_irreflexive(a.drop_first());
    }
}

/// The order is transitive.
pub proof fn lemma_lt_transitive(a: Seq<char>, b: Seq<char>, c: Seq<char>)
    requires
        chars_lt(a, b),
        chars_lt(b, c),
    ensures
        chars_lt(a, c),
    decreases a.len(),
{
    if a.len() > 0 && b.len() > 0 && c.len() > 0 && a[0] == b[0] && b[0] == c[0] {
        lemma_lt_transitive(a.drop_first(), b.drop_first(), c.drop_first());
    }
}

/// Two different strings are ordered one way or the other.
pub proof fn lemma_lt_total(a: Seq<char>, b: Seq<char>)
    ensures
        a == b || chars_lt(a, b) || chars_lt(b, a),
    decreases a.len(),
{
    if a.len() > 0 && b.len() > 0 && a[0] == b[0] {
        lemma_lt_total(a.drop_first(), b.drop_first());
        if a.drop_first() == b.drop_first() {
            assert forall|i: int| 0 <= i < a.len() implies a[i] == b[i] by {
                if i > 0 {
                    assert(a[i] == a.drop_first()[i - 1]);
                    assert(b[i] == b.drop_first()[i - 1]);
                }
            }
            assert(a =~= b);
        }
    } else if a.len() == 0 && b.len() == 0 {
        assert(a =~= b);
    }
}

/// The order is asymmetric.
pub proof fn lemma_lt_asymmetric(a: Seq<char>, b: Seq<char>)
    requires
        chars_lt(a, b),
    ensures
        !chars_lt(b, a),
{
    if chars_lt(b, a) {
        lemma_lt_transitive(a, b, a);
        lemma_lt_irreflexive(a);
    }
}

/// Strictly increasing: sorted and without duplicates.
pub open spec fn strictly_sorted(s: Seq<Seq<char>>) -> bool {
    forall|i: int, j: int| 0 <= i < j < s.len() ==> chars_lt(#[trigger] s[i], #[trigger] s[j])
}

/// `a < b` in the order of `String`.
pub fn chars_less(a: &Vec<char>, b: &Vec<char>) -> (res: bool)
    ensures
        res == chars_lt(a@, b@),
{
    let mut i: usize = 0;
    assert(a@.skip(0) =~= a@ && b@.skip(0) =~= b@);
    loop
        invariant
            i <= a.len(),
            i <= b.len(),
            chars_lt(a@, b@) == chars_lt(a@.skip(i as int), b@.skip(i as int)),
        decreases a.len() - i,
    {
        if i == a.len() {
            return i < b.len();
        }
        if i == b.len() {
            return false;
        }
        if a[i] != b[i] {
            return a[i] < b[i];
        }
        assert(a@.skip(i as int).drop_first() =~= a@.skip(i + 1));
        assert(b@.skip(i as int).drop_first() =~= b@.skip(i + 1));
        i += 1;
    }
}

/// Inserts `x` into a strictly sorted vector, keeping it strictly sorted: afterwards it
/// holds what it held and `x`, and nothing else.
pub fn insert_sorted(v: &mut Vec<Vec<char>>, x: Vec<char>)
    requires
        strictly_sorted(views(old(v)@)),
    ensures
        strictly_sorted(views(final(v)@)),
        views(final(v)@).to_set() == views(old(v)@).to_set().insert(x@),
{
    let ghost s = views(v@);
    let mut i: usize = 0;
    while i < v.len() && chars_less(&v[i], &x)
        invariant
            s == views(v@),
            strictly_sorted(s),
            i <= v.len(),
            forall|j: int| 0 <= j < i ==> chars_lt(#[trigger] s[j], x@),
        decreases v.len() - i,
    {
        assert(s[i as int] == v[i as int]@);
        i += 1;
    }
    if i < v.len() {
        assert(s[i as int] == v[i as int]@);
    }
    if i < v.len() && crate::text::chars_eq(&v[i], &x) {
        assert(s.to_set().insert(x@) =~= s.to_set()) by {
            assert(s.contains(x@)) by {
                assert(s[i as int] == x@);
            }
        }
        return;
    }
    proof {
        if i < v.len() {
            lemma_lt_total(s[i as int], x@);
            assert(chars_lt(x@, s[i as int]));
        }
    }
    let ghost xv = x@;
    v.insert(i, x);
    let ghost t = views(v@);
    assert(t =~= s.take(i as int).push(xv) + s.skip(i as int));
    assert forall|a: int, b: int| 0 <= a < b < t.len() implies chars_lt(
        #[trigger] t[a],
        #[trigger] t[b],
    ) by {
        if b < i {
            assert(t[a] == s[a] && t[b] == s[b]);
        } else if b == i {
            assert(t[a] == s[a] && t[b] == xv);
        } else if a < i {
            assert(t[a] == s[a] && t[b] == s[b - 1]);
            assert(chars_lt(s[a], xv));
            if b - 1 > i {
                assert(chars_lt(s[i as int], s[b - 1]));
                lemma_lt_transitive(xv, s[i as int], s[b - 1]);
            }
            lemma_lt_transitive(s[a], xv, s[b - 1]);
        } else if a == i {
            assert(t[a] == xv && t[b] == s[b - 1]);
            if b - 1 > i {
                assert(chars_lt(s[i as int], s[b - 1]));
                lemma_lt_transitive(xv, s[i as int], s[b - 1]);
            }
        } else {
            assert(t[a] == s[a - 1] && t[b] == s[b - 1]);
        }
    }
    assert(t.to_set() =~= s.to_set().insert(xv)) by {
        assert forall|e: Seq<char>| t.contains(e) <==> s.contains(e) || e == xv by {
            if t.contains(e) {
                let k = choose|k: int| 0 <= k < t.len() && t[k] == e;
                if k < i {
                    assert(s[k] == e);
                } else if k > i {
                    assert(s[k - 1] == e);
                }
            }
            if s.contains(e) {
                let k = choose|k: int| 0 <= k < s.len() && s[k] == e;
                if k < i {
                    assert(t[k] == e);
                } else {
                    assert(t[k + 1] == e);
                }
            }
            if e == xv {
                assert(t[i as int] == e);
            }
        }
    }
}

/// The strings of a vector of `String`s.
pub open spec fn string_views(v: Seq<String>) -> Seq<Seq<char>> {
    v.map_values(|x: String| x@)
}

/// The strings held as character vectors, as `String`s.
pub fn to_strings(v: &Vec<Vec<char>>) -> (res: Vec<String>)
    ensures
        string_views(res@) == views(v@),
{
    let mut res: Vec<String> = Vec::new();
    let mut i: usize = 0;
    while i < v.len()
        invariant
            i <= v.len(),
            string_views(res@) == views(v@).take(i as int),
        decreases v.len() - i,
    {
        let s = string_from(&v[i]);
        let ghost before = res@;
        let ghost sv = s@;
        res.push(s);
        assert(res@ == before.push(s));
        assert(string_views(res@) =~= string_views(before).push(sv));
        assert(views(v@).take(i + 1) =~= views(v@).take(i as int).push(v@[i as int]@));
        assert(string_views(res@) =~= views(v@).take(i + 1));
        i += 1;
    }
    assert(views(v@).take(i as int) =~= views(v@));
    res
}

/// Whether `x` is one of the strings of `v`.
pub fn holds_chars(v: &Vec<Vec<char>>, x: &Vec<char>) -> (res: bool)
    ensures
        res == views(v@).contains(x@),
{
    let ghost s = views(v@);
    let mut i: usize = 0;
    while i < v.len()
        invariant
            s == views(v@),
            i <= v.len(),
            forall|j: int| 0 <= j < i ==> s[j] != x@,
        decreases v.len() - i,
    {
        if crate::text::chars_eq(&v[i], x) {
            assert(s[i as int] == x@);
            return true;
        }
        i += 1;
    }
    false
}

/// The `String`s of a vector as character vectors.
pub fn chars_vecs(v: &Vec<String>) -> (res: Vec<Vec<char>>)
    ensures
        views(res@) == string_views(v@),
{
    let mut res: Vec<Vec<char>> = Vec::new();
    let mut i: usize = 0;
    while i < v.len()
        invariant
            i <= v.len(),
            views(res@) == string_views(v@).take(i as int),
        decreases v.len() - i,
    {
        let c = crate::text::chars_of(v[i].as_str());
        let ghost before = views(res@);
        let ghost cv = c@;
        res.push(c);
        assert(views(res@) =~= before.push(cv));
        assert(string_views(v@).take(i + 1) =~= string_views(v@).take(i as int).push(v@[i as int]@));
        i += 1;
    }
    assert(string_views(v@).take(i as int) =~= string_views(v@));
    res
}

} // verus!
