//! Lexicographic order of texts (the order of `String`'s `Ord`: by code point, a proper
//! prefix first) and sorted collections of texts.

use vstd::prelude::*;

verus! {

/// `a` comes strictly before `b`.
pub open spec fn lex_lt(a: Seq<char>, b: Seq<char>) -> bool
    decreases a.len(),
{
    if a.len() == 0 {
        b.len() > 0
    } else if b.len() == 0 {
        false
    } else if a[0] < b[0] {
        true
    } else if a[0] == b[0] {
        lex_lt(a.drop_first(), b.drop_first())
    } else {
        false
    }
}

/// `a` comes before `b` or equals it.
pub open spec fn lex_le(a: Seq<char>, b: Seq<char>) -> bool {
    lex_lt(a, b) || a == b
}

pub proof fn lemma_lex_irreflexive(a: Seq<char>)
    ensures
        !lex_lt(a, a),
    decreases a.len(),
{
    if a.len() > 0 {
        lemma_lex_irreflexive(a.drop_first());
    }
}

pub proof fn lemma_lex_transitive(a: Seq<char>, b: Seq<char>, c: Seq<char>)
    requires
        lex_lt(a, b),
        lex_lt(b, c),
    ensures
        lex_lt(a, c),
    decreases a.len(),
{
    if a.len() > 0 && b.len() > 0 && c.len() > 0 {
        if a[0] == b[0] && b[0] == c[0] {
            lemma_lex_transitive(a.drop_first(), b.drop_first(), c.drop_first());
        }
    }
}

pub proof fn lemma_lex_total(a: Seq<char>, b: Seq<char>)
    requires
        a != b,
    ensures
        lex_lt(a, b) || lex_lt(b, a),
    decreases a.len(),
{
    if a.len() > 0 && b.len() > 0 {
        if a[0] == b[0] {
            if a.drop_first() == b.drop_first() {
                assert(a =~= seq![a[0]] + a.drop_first());
                assert(b =~= seq![b[0]] + b.drop_first());
            }
            lemma_lex_total(a.drop_first(), b.drop_first());
        }
    } else if a.len() == 0 && b.len() == 0 {
        assert(a =~= b);
    }
}

pub proof fn lemma_lex_asymmetric(a: Seq<char>, b: Seq<char>)
    requires
        lex_lt(a, b),
    ensures
        !lex_lt(b, a),
{
    if lex_lt(b, a) {
        lemma_lex_transitive(a, b, a);
        lemma_lex_irreflexive(a);
    }
}

/// Whether `a` comes strictly before `b`.
pub fn lex_less(a: &[char], b: &[char]) -> (r: bool)
    ensures
        r == lex_lt(a@, b@),
{
    let mut k: usize = 0;
    assert(a@.skip(0) =~= a@);
    assert(b@.skip(0) =~= b@);
    loop
        invariant
            k <= a@.len(),
            k <= b@.len(),
            lex_lt(a@, b@) == lex_lt(a@.skip(k as int), b@.skip(k as int)),
        decreases a@.len() - k,
    {
        if k == a.len() {
            return k < b.len();
        }
        if k == b.len() {
            return false;
        }
        let x = a[k];
        let y = b[k];
        if x < y {
            return true;
        }
        if x != y {
            return false;
        }
        assert(a@.skip(k as int).drop_first() =~= a@.skip(k + 1));
        assert(b@.skip(k as int).drop_first() =~= b@.skip(k + 1));
        k = k + 1;
    }
}

/// Whether `a` and `b` hold the same characters.
pub fn same_chars(a: &[char], b: &[char]) -> (r: bool)
    ensures
        r == (a@ == b@),
{
    if a.len() != b.len() {
        return false;
    }
    let mut i: usize = 0;
    while i < a.len()
        invariant
            a@.len() == b@.len(),
            i <= a@.len(),
            forall|k: int| 0 <= k < i ==> a@[k] == b@[k],
        decreases a.len() - i,
    {
        if a[i] != b[i] {
            assert(a@[i as int] != b@[i as int]);
            return false;
        }
        i = i + 1;
    }
    assert(a@ =~= b@);
    true
}

/// The texts held by a list.
pub open spec fn texts(v: Seq<Vec<char>>) -> Seq<Seq<char>> {
    v.map_values(|x: Vec<char>| x@)
}

/// Strictly increasing: sorted, with no text twice.
pub open spec fn strictly_sorted(s: Seq<Seq<char>>) -> bool {
    forall|i: int, j: int| 0 <= i < j < s.len() ==> lex_lt(#[trigger] s[i], #[trigger] s[j])
}

/// Increasing, equal texts allowed.
pub open spec fn sorted(s: Seq<Seq<char>>) -> bool {
    forall|i: int, j: int| 0 <= i < j < s.len() ==> lex_le(#[trigger] s[i], #[trigger] s[j])
}

/// Inserts `x` into the strictly sorted `v`, unless it is already there.
pub fn sorted_insert(v: &mut Vec<Vec<char>>, x: Vec<char>)
    requires
        strictly_sorted(texts(old(v)@)),
    ensures
        strictly_sorted(texts(final(v)@)),
        texts(final(v)@).to_set() == texts(old(v)@).to_set().insert(x@),
{
    let n = v.len();
    let mut p: usize = 0;
    while p < n && lex_less(&v[p], &x)
        invariant
            n == v@.len(),
            p <= n,
            v@ == old(v)@,
            forall|j: int| 0 <= j < p ==> lex_lt(#[trigger] texts(v@)[j], x@),
        decreases n - p,
    {
        p = p + 1;
    }
    let ghost t = texts(v@);
    if p < n && same_chars(&v[p], &x) {
        assert(t[p as int] == x@);
        assert(t.to_set().insert(x@) =~= t.to_set());
        return;
    }
    proof {
        if p < n {
            lemma_lex_total(t[p as int], x@);
        }
    }
    v.insert(p, x);
    proof {
        let t2 = texts(v@);
        assert(t2 =~= t.insert(p as int, x@));
        assert forall|i: int, j: int| 0 <= i < j < t2.len() implies lex_lt(#[trigger] t2[i], #[trigger] t2[j]) by {
            if j < p {
                assert(t2[i] == t[i] && t2[j] == t[j]);
            } else if j == p {
                assert(t2[i] == t[i]);
            } else if i == p {
                assert(t2[j] == t[j - 1]);
                if j - 1 > p {
                    assert(lex_lt(t[p as int], t[j - 1]));
                    lemma_lex_transitive(x@, t[p as int], t[j - 1]);
                }
            } else if i < p {
                assert(t2[i] == t[i] && t2[j] == t[j - 1]);
            } else {
                assert(t2[i] == t[i - 1] && t2[j] == t[j - 1]);
            }
        }
        assert forall|y: Seq<char>| t2.to_set().contains(y) <==> t.to_set().insert(x@).contains(y) by {
            if t2.to_set().contains(y) {
                let k = choose|k: int| 0 <= k < t2.len() && t2[k] == y;
                if k < p {
                    assert(t[k] == y);
                } else if k > p {
                    assert(t[k - 1] == y);
                }
            }
            if t.to_set().contains(y) {
                let k = choose|k: int| 0 <= k < t.len() && t[k] == y;
                if k < p {
                    assert(t2[k] == y);
                } else {
                    assert(t2[k + 1] == y);
                }
            }
            if y == x@ {
                assert(t2[p as int] == y);
            }
        }
        assert(t2.to_set() =~= t.to_set().insert(x@));
    }
}

/// Removes `x` from the strictly sorted `v`, where it is there.
pub fn sorted_remove(v: &mut Vec<Vec<char>>, x: &[char])
    requires
        strictly_sorted(texts(old(v)@)),
    ensures
        strictly_sorted(texts(final(v)@)),
        texts(final(v)@).to_set() == texts(old(v)@).to_set().remove(x@),
{
    let n = v.len();
    let mut p: usize = 0;
    let ghost t = texts(v@);
    while p < n
        invariant
            n == v@.len(),
            p <= n,
            v@ == old(v)@,
            t == texts(v@),
            strictly_sorted(t),
            forall|j: int| 0 <= j < p ==> #[trigger] t[j] != x@,
        decreases n - p,
    {
        if same_chars(&v[p], x) {
            assert(t[p as int] == x@);
            let _ = v.remove(p);
            proof {
                let t2 = texts(v@);
                assert(t2 =~= t.remove(p as int));
                assert forall|i: int, j: int| 0 <= i < j < t2.len() implies lex_lt(#[trigger] t2[i], #[trigger] t2[j]) by {
                    if j < p {
                        assert(t2[i] == t[i] && t2[j] == t[j]);
                    } else if i < p {
                        assert(t2[i] == t[i] && t2[j] == t[j + 1]);
                    } else {
                        assert(t2[i] == t[i + 1] && t2[j] == t[j + 1]);
                    }
                }
                assert forall|y: Seq<char>| t2.to_set().contains(y) <==> t.to_set().remove(x@).contains(y) by {
                    if t2.to_set().contains(y) {
                        let k = choose|k: int| 0 <= k < t2.len() && t2[k] == y;
                        if k < p {
                            assert(t[k] == y);
                            assert(lex_lt(t[k], t[p as int]));
                            lemma_lex_irreflexive(y);
                        } else {
                            assert(t[k + 1] == y);
                            assert(lex_lt(t[p as int], t[k + 1]));
                            lemma_lex_irreflexive(y);
                        }
                    }
                    if t.to_set().remove(x@).contains(y) {
                        let k = choose|k: int| 0 <= k < t.len() && t[k] == y;
                        if k < p {
                            assert(t2[k] == y);
                        } else {
                            assert(k != p);
                            assert(t2[k - 1] == y);
                        }
                    }
                }
                assert(t2.to_set() =~= t.to_set().remove(x@));
            }
            return;
        }
        p = p + 1;
    }
    assert(t.to_set().remove(x@) =~= t.to_set());
}

/// Inserts `x` into the sorted `v`, after any equal texts.
pub fn sorted_insert_dup(v: &mut Vec<Vec<char>>, x: Vec<char>)
    requires
        sorted(texts(old(v)@)),
    ensures
        sorted(texts(final(v)@)),
        texts(final(v)@).to_multiset() == texts(old(v)@).to_multiset().insert(x@),
{
    broadcast use vstd::seq_lib::group_to_multiset_ensures;
    let n = v.len();
    let mut p: usize = 0;
    while p < n && !lex_less(&x, &v[p])
        invariant
            n == v@.len(),
            p <= n,
            v@ == old(v)@,
            forall|j: int| 0 <= j < p ==> !lex_lt(x@, #[trigger] texts(v@)[j]),
        decreases n - p,
    {
        p = p + 1;
    }
    let ghost t = texts(v@);
    v.insert(p, x);
    proof {
        let t2 = texts(v@);
        assert(t2 =~= t.insert(p as int, x@));
        assert forall|j: int| 0 <= j < p implies lex_le(#[trigger] t[j], x@) by {
            if t[j] != x@ {
                lemma_lex_total(t[j], x@);
            }
        }
        assert forall|i: int, j: int| 0 <= i < j < t2.len() implies lex_le(#[trigger] t2[i], #[trigger] t2[j]) by {
            if j < p {
                assert(t2[i] == t[i] && t2[j] == t[j]);
            } else if j == p {
                assert(t2[i] == t[i]);
            } else if i == p {
                assert(t2[j] == t[j - 1]);
                assert(lex_lt(x@, t[p as int]));
                if j - 1 > p {
                    assert(lex_le(t[p as int], t[j - 1]));
                    if t[p as int] != t[j - 1] {
                        lemma_lex_transitive(x@, t[p as int], t[j - 1]);
                    }
                }
            } else if i < p {
                assert(t2[i] == t[i] && t2[j] == t[j - 1]);
                assert(lex_le(t[i], x@));
                assert(lex_lt(x@, t[p as int]));
                if t[i] != x@ {
                    lemma_lex_transitive(t[i], x@, t[p as int]);
                }
                if j - 1 > p {
                    assert(lex_le(t[p as int], t[j - 1]));
                    if t[p as int] != t[j - 1] {
                        lemma_lex_transitive(t[i], t[p as int], t[j - 1]);
                    }
                }
            } else {
                assert(t2[i] == t[i - 1] && t2[j] == t[j - 1]);
            }
        }
    }
}

} // verus!
