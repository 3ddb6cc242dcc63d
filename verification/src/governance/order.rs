//! Sorted sets of strings, ordered as `String`'s `Ord` orders them: by code
//! point, a proper prefix first (UTF-8 byte order agrees with code point
//! order).

use super::chars::chars_eq;
use vstd::prelude::*;

verus! {

/// `a` sorts before `b`.
pub open spec fn lex_lt(a: Seq<char>, b: Seq<char>) -> bool
    decreases a.len(),
{
    if a.len() == 0 {
        b.len() > 0
    } else if b.len() == 0 {
        false
    } else if a[0] != b[0] {
        (a[0] as u32) < (b[0] as u32)
    } else {
        lex_lt(a.drop_first(), b.drop_first())
    }
}

/// Strictly increasing.
pub open spec fn sorted(q: Seq<Seq<char>>) -> bool {
    forall|i: int, j: int| 0 <= i < j < q.len() ==> lex_lt(#[trigger] q[i], #[trigger] q[j])
}

/// The elements of `s` in increasing order.
pub open spec fn sorted_of(s: Set<Seq<char>>) -> Seq<Seq<char>> {
    choose|q: Seq<Seq<char>>| sorted(q) && q.to_set() == s
}

pub proof fn lemma_lex_irreflexive(a: Seq<char>)
    ensures
        !lex_lt(a, a),
    decreases a.len(),
{
    if a.len() > 0 {
        lemma_lex_irreflexive(a.drop_first());
    }
}

pub proof fn lemma_lex_transitive(a: Seq<char>, b: Seq<char>, c: Seq<char>)
    requires
        lex_lt(a, b),
        lex_lt(b, c),
    ensures
        lex_lt(a, c),
    decreases a.len(),
{
    if a.len() > 0 && b.len() > 0 && c.len() > 0 && a[0] == b[0] && b[0] == c[0] {
        lemma_lex_transitive(a.drop_first(), b.drop_first(), c.drop_first());
    }
}

pub proof fn lemma_lex_total(a: Seq<char>, b: Seq<char>)
    requires
        a != b,
    ensures
        lex_lt(a, b) || lex_lt(b, a),
    decreases a.len(),
{
    if a.len() > 0 && b.len() > 0 && a[0] == b[0] {
        if a.drop_first() == b.drop_first() {
            assert(a =~= seq![a[0]] + a.drop_first());
            assert(b =~= seq![b[0]] + b.drop_first());
        }
        lemma_lex_total(a.drop_first(), b.drop_first());
    } else if a.len() > 0 && b.len() > 0 {
        vstd::utf8::char_u32_cast(a[0], a[0] as u32);
        vstd::utf8::char_u32_cast(b[0], b[0] as u32);
    } else if a.len() == 0 && b.len() == 0 {
        assert(a =~= b);
    }
}

pub proof fn lemma_lex_asymmetric(a: Seq<char>, b: Seq<char>)
    requires
        lex_lt(a, b),
    ensures
        !lex_lt(b, a),
{
    if lex_lt(b, a) {
        lemma_lex_transitive(a, b, a);
        lemma_lex_irreflexive(a);
    }
}

/// Two sorted sequences with the same elements are equal.
pub proof fn lemma_sorted_unique(p: Seq<Seq<char>>, q: Seq<Seq<char>>)
    requires
        sorted(p),
        sorted(q),
        p.to_set() == q.to_set(),
    ensures
        p == q,
    decreases p.len(),
{
    if p.len() == 0 {
        if q.len() > 0 {
            assert(q.to_set().contains(q[0]));
        }
        assert(p =~= q);
    } else {
        assert(p.to_set().contains(p[0]));
        assert(q.to_set().contains(p[0]));
        assert(q.len() > 0);
        assert(q.to_set().contains(q[0]));
        assert(p.to_set().contains(q[0]));
        let i = choose|i: int| 0 <= i < q.len() && q[i] == p[0];
        let j = choose|j: int| 0 <= j < p.len() && p[j] == q[0];
        if i > 0 {
            assert(lex_lt(q[0], q[i]));
            if j > 0 {
                assert(lex_lt(p[0], p[j]));
                lemma_lex_asymmetric(p[0], q[0]);
            } else {
                lemma_lex_irreflexive(q[0]);
            }
        }
        assert(p[0] == q[0]);
        let p1 = p.drop_first();
        let q1 = q.drop_first();
        assert(sorted(p1)) by {
            assert forall|a: int, b: int| 0 <= a < b < p1.len() implies lex_lt(
                #[trigger] p1[a],
                #[trigger] p1[b],
            ) by {
                assert(p1[a] == p[a + 1] && p1[b] == p[b + 1]);
            }
        }
        assert(sorted(q1)) by {
            assert forall|a: int, b: int| 0 <= a < b < q1.len() implies lex_lt(
                #[trigger] q1[a],
                #[trigger] q1[b],
            ) by {
                assert(q1[a] == q[a + 1] && q1[b] == q[b + 1]);
            }
        }
        assert(p1.to_set() =~= q1.to_set()) by {
            assert forall|x: Seq<char>| p1.to_set().contains(x) implies q1.to_set().contains(x) by {
                let a = choose|a: int| 0 <= a < p1.len() && p1[a] == x;
                assert(p[a + 1] == x);
                assert(lex_lt(p[0], x));
                lemma_lex_irreflexive(x);
                assert(q.to_set().contains(x));
                let b = choose|b: int| 0 <= b < q.len() && q[b] == x;
                assert(b != 0);
                assert(q1[b - 1] == x);
            }
            assert forall|x: Seq<char>| q1.to_set().contains(x) implies p1.to_set().contains(x) by {
                let a = choose|a: int| 0 <= a < q1.len() && q1[a] == x;
                assert(q[a + 1] == x);
                assert(lex_lt(q[0], x));
                lemma_lex_irreflexive(x);
                assert(p.to_set().contains(x));
                let b = choose|b: int| 0 <= b < p.len() && p[b] == x;
                assert(b != 0);
                assert(p1[b - 1] == x);
            }
        }
        lemma_sorted_unique(p1, q1);
        assert(p =~= seq![p[0]] + p1);
        assert(q =~= seq![q[0]] + q1);
    }
}

/// A sorted sequence of a set's elements is its increasing enumeration.
pub proof fn lemma_sorted_of(q: Seq<Seq<char>>)
    requires
        sorted(q),
    ensures
        sorted_of(q.to_set()) == q,
{
    let s = q.to_set();
    assert(sorted(q) && q.to_set() == s);
    let r = sorted_of(s);
    lemma_sorted_unique(r, q);
}

/// Whether `a` sorts before `b`.
pub fn lex_less(a: &[char], b: &[char]) -> (r: bool)
    ensures
        r == lex_lt(a@, b@),
{
    let mut i: usize = 0;
    assert(a@.skip(0) =~= a@ && b@.skip(0) =~= b@);
    while i < a.len() && i < b.len() && a[i] == b[i]
        invariant
            i <= a@.len(),
            i <= b@.len(),
            lex_lt(a@, b@) == lex_lt(a@.skip(i as int), b@.skip(i as int)),
        decreases a@.len() - i,
    {
        assert(a@.skip(i as int).drop_first() =~= a@.skip(i + 1));
        assert(b@.skip(i as int).drop_first() =~= b@.skip(i + 1));
        i += 1;
    }
    if i == a.len() {
        i < b.len()
    } else if i == b.len() {
        false
    } else {
        assert(a@.skip(i as int)[0] == a@[i as int]);
        assert(b@.skip(i as int)[0] == b@[i as int]);
        (a[i] as u32) < (b[i] as u32)
    }
}

/// The characters of each element.
pub open spec fn set_view(v: Seq<Vec<char>>) -> Seq<Seq<char>> {
    v.map_values(|x: Vec<char>| x@)
}

/// Add `x` to a sorted set.
pub fn insert_sorted(v: &mut Vec<Vec<char>>, x: Vec<char>)
    requires
        sorted(set_view(old(v)@)),
    ensures
        sorted(set_view(final(v)@)),
        set_view(final(v)@).to_set() == set_view(old(v)@).to_set().insert(x@),
{
    let ghost q = set_view(v@);
    let mut j: usize = 0;
    while j < v.len() && lex_less(v[j].as_slice(), x.as_slice())
        invariant
            q == set_view(v@),
            j <= q.len(),
            forall|k: int| 0 <= k < j ==> lex_lt(#[trigger] q[k], x@),
        decreases q.len() - j,
    {
        assert(q[j as int] == v@[j as int]@);
        j += 1;
    }
    if j < v.len() {
        assert(q[j as int] == v@[j as int]@);
        if chars_eq(v[j].as_slice(), x.as_slice()) {
            assert(q.to_set().insert(x@) =~= q.to_set());
            return;
        }
        proof {
            lemma_lex_total(q[j as int], x@);
        }
    }
    let ghost xv = x@;
    v.insert(j, x);
    proof {
        let r = set_view(v@);
        assert(r =~= q.insert(j as int, xv));
        assert forall|a: int, b: int| 0 <= a < b < r.len() implies lex_lt(
            #[trigger] r[a],
            #[trigger] r[b],
        ) by {
            if b < j {
                assert(r[a] == q[a] && r[b] == q[b]);
            } else if b == j {
                assert(r[a] == q[a]);
            } else if a == j {
                assert(r[b] == q[b - 1]);
                if b - 1 > j {
                    assert(lex_lt(q[j as int], q[b - 1]));
                    lemma_lex_transitive(xv, q[j as int], q[b - 1]);
                }
            } else if a < j {
                assert(r[a] == q[a] && r[b] == q[b - 1]);
                if b - 1 >= j {
                    if b - 1 > j {
                        assert(lex_lt(q[j as int], q[b - 1]));
                        lemma_lex_transitive(xv, q[j as int], q[b - 1]);
                    }
                    lemma_lex_transitive(q[a], xv, q[b - 1]);
                }
            } else {
                assert(r[a] == q[a - 1] && r[b] == q[b - 1]);
            }
        }
        assert(r.to_set() =~= q.to_set().insert(xv)) by {
            assert forall|y: Seq<char>| r.to_set().contains(y) implies q.to_set().insert(xv).contains(y) by {
                let a = choose|a: int| 0 <= a < r.len() && r[a] == y;
                if a < j {
                    assert(q[a] == y);
                } else if a > j {
                    assert(q[a - 1] == y);
                }
            }
            assert forall|y: Seq<char>| q.to_set().insert(xv).contains(y) implies r.to_set().contains(y) by {
                if y == xv {
                    assert(r[j as int] == y);
                } else {
                    let a = choose|a: int| 0 <= a < q.len() && q[a] == y;
                    if a < j {
                        assert(r[a] == y);
                    } else {
                        assert(r[a + 1] == y);
                    }
                }
            }
        }
    }
}

} // verus!
