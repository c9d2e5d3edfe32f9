//! Ordered sets of strings: sorted, duplicate-free vectors ordered the way
//! `String`'s `Ord` orders them (character by character, by code point).
use vstd::prelude::*;

use crate::text::{chars_of, views};

verus! {

/// `a` comes strictly before `b` in lexicographic code-point order.
pub open spec fn lex_lt(a: Seq<char>, b: Seq<char>) -> bool
    decreases a.len(),
{
    if a.len() == 0 {
        b.len() > 0
    } else if b.len() == 0 {
        false
    } else if a[0] != b[0] {
        a[0] < b[0]
    } else {
        lex_lt(a.drop_first(), b.drop_first())
    }
}

/// Strictly increasing: sorted and free of duplicates.
pub open spec fn sorted_set(s: Seq<Seq<char>>) -> bool {
    forall|i: int, j: int| 0 <= i < j < s.len() ==> lex_lt(#[trigger] s[i], #[trigger] s[j])
}

/// `s` and `t` hold the same elements.
pub open spec fn same_elements(s: Seq<Seq<char>>, t: Seq<Seq<char>>) -> bool {
    forall|x: Seq<char>| s.contains(x) <==> t.contains(x)
}

/// The elements of `s` that `t` does not contain, in the order of `s`.
pub open spec fn minus(s: Seq<Seq<char>>, t: Seq<Seq<char>>) -> Seq<Seq<char>>
    decreases s.len(),
{
    if s.len() == 0 {
        s
    } else if t.contains(s.last()) {
        minus(s.drop_last(), t)
    } else {
        minus(s.drop_last(), t).push(s.last())
    }
}

/// No string comes before itself.
pub proof fn lemma_lex_irreflexive(a: Seq<char>)
    ensures
        !lex_lt(a, a),
    decreases a.len(),
{
    if a.len() > 0 {
        lemma_lex_irreflexive(a.drop_first());
    }
}

/// The order is transitive.
pub proof fn lemma_lex_transitive(a: Seq<char>, b: Seq<char>, c: Seq<char>)
    requires
        lex_lt(a, b),
        lex_lt(b, c),
    ensures
        lex_lt(a, c),
    decreases a.len(),
{
    if a.len() > 0 && b.len() > 0 && c.len() > 0 {
        if a[0] == b[0] && b[0] == c[0] {
            lemma_lex_transitive(a.drop_first(), b.drop_first(), c.drop_first());
        }
    }
}

/// Two different strings are ordered one way or the other.
pub proof fn lemma_lex_total(a: Seq<char>, b: Seq<char>)
    requires
        a != b,
    ensures
        lex_lt(a, b) || lex_lt(b, a),
    decreases a.len(),
{
    if a.len() > 0 && b.len() > 0 && a[0] == b[0] {
        if a.drop_first() == b.drop_first() {
            assert(a =~= seq![a[0]] + a.drop_first());
            assert(b =~= seq![b[0]] + b.drop_first());
        }
        lemma_lex_total(a.drop_first(), b.drop_first());
    } else if a.len() == 0 && b.len() == 0 {
        assert(a =~= b);
    } else if a.len() > 0 && b.len() > 0 {
        assert(a[0] != b[0]);

    }
}

/// The order is asymmetric.
pub proof fn lemma_lex_asymmetric(a: Seq<char>, b: Seq<char>)
    requires
        lex_lt(a, b),
    ensures
        !lex_lt(b, a),
{
    if lex_lt(b, a) {
        lemma_lex_transitive(a, b, a);
        lemma_lex_irreflexive(a);
    }
}

/// A sorted set holds no element twice.
pub proof fn lemma_sorted_no_duplicates(s: Seq<Seq<char>>)
    requires
        sorted_set(s),
    ensures
        s.no_duplicates(),
{
    assert forall|i: int, j: int| 0 <= i < s.len() && 0 <= j < s.len() && i != j implies s[i]
        != s[j] by {
        if i < j {
            assert(lex_lt(s[i], s[j]));
            lemma_lex_irreflexive(s[i]);
        } else {
            assert(lex_lt(s[j], s[i]));
            lemma_lex_irreflexive(s[j]);
        }
    }
}

/// Membership in a sequence with one more element.
pub proof fn lemma_push_contains(s: Seq<Seq<char>>, l: Seq<char>)
    ensures
        forall|x: Seq<char>| #[trigger] s.push(l).contains(x) <==> (s.contains(x) || x == l),
{
    assert forall|x: Seq<char>| #[trigger] s.push(l).contains(x) <==> (s.contains(x) || x == l) by {
        if s.push(l).contains(x) {
            let k = choose|k: int| 0 <= k < s.push(l).len() && s.push(l)[k] == x;
            if k < s.len() {
                assert(s[k] == x);
            }
        }
        if s.contains(x) {
            let k = choose|k: int| 0 <= k < s.len() && s[k] == x;
            assert(s.push(l)[k] == x);
        }
        if x == l {
            assert(s.push(l)[s.len() as int] == x);
        }
    }
}

/// What `minus` keeps.
pub proof fn lemma_minus_contains(s: Seq<Seq<char>>, t: Seq<Seq<char>>)
    ensures
        forall|x: Seq<char>| #[trigger] minus(s, t).contains(x) <==> (s.contains(x) && !t.contains(x)),
    decreases s.len(),
{
    if s.len() > 0 {
        let d = s.drop_last();
        let l = s.last();
        lemma_minus_contains(d, t);
        lemma_push_contains(d, l);
        assert(s =~= d.push(l));
        lemma_push_contains(minus(d, t), l);
    }
}

/// Inserting a new element into a sorted set gives a sorted set.
pub proof fn lemma_insert_exists(r: Seq<Seq<char>>, x: Seq<char>) -> (r2: Seq<Seq<char>>)
    requires
        sorted_set(r),
    ensures
        sorted_set(r2),
        forall|y: Seq<char>| #[trigger] r2.contains(y) <==> (r.contains(y) || y == x),
    decreases r.len(),
{
    if r.contains(x) {
        r
    } else if r.len() == 0 {
        let r2 = seq![x];
        assert(forall|y: Seq<char>| #[trigger] r2.contains(y) <==> y == x) by {
            assert forall|y: Seq<char>| #[trigger] r2.contains(y) implies y == x by {
                let k = choose|k: int| 0 <= k < 1 && r2[k] == y;
            }
            assert(r2[0] == x);
        }
        r2
    } else if lex_lt(x, r[0]) {
        let r2 = seq![x] + r;
        assert forall|i: int, j: int| 0 <= i < j < r2.len() implies lex_lt(#[trigger] r2[i], #[trigger] r2[j]) by {
            if i == 0 {
                if j > 1 {
                    assert(lex_lt(r[0], r[j - 1]));
                    lemma_lex_transitive(x, r[0], r[j - 1]);
                }
            } else {
                assert(r2[i] == r[i - 1] && r2[j] == r[j - 1]);
            }
        }
        assert forall|y: Seq<char>| #[trigger] r2.contains(y) <==> (r.contains(y) || y == x) by {
            if r2.contains(y) {
                let k = choose|k: int| 0 <= k < r2.len() && r2[k] == y;
                if k > 0 {
                    assert(r[k - 1] == y);
                }
            }
            if r.contains(y) {
                let k = choose|k: int| 0 <= k < r.len() && r[k] == y;
                assert(r2[k + 1] == y);
            }
            if y == x {
                assert(r2[0] == x);
            }
        }
        r2
    } else {
        assert(r[0] != x) by {
            assert(r.contains(r[0]));
        }
        lemma_lex_total(r[0], x);
        let tail = r.drop_first();
        assert forall|i: int, j: int| 0 <= i < j < tail.len() implies lex_lt(#[trigger] tail[i], #[trigger] tail[j]) by {
            assert(tail[i] == r[i + 1] && tail[j] == r[j + 1]);
        }
        let t2 = lemma_insert_exists(tail, x);
        let r2 = seq![r[0]] + t2;
        assert forall|y: Seq<char>| #[trigger] r2.contains(y) <==> (r.contains(y) || y == x) by {
            if r2.contains(y) {
                let k = choose|k: int| 0 <= k < r2.len() && r2[k] == y;
                if k > 0 {
                    assert(t2[k - 1] == y);
                    assert(t2.contains(y));
                    if tail.contains(y) {
                        let m = choose|m: int| 0 <= m < tail.len() && tail[m] == y;
                        assert(r[m + 1] == y);
                    }
                } else {
                    assert(r[0] == y);
                }
            }
            if r.contains(y) {
                let k = choose|k: int| 0 <= k < r.len() && r[k] == y;
                if k == 0 {
                    assert(r2[0] == y);
                } else {
                    assert(tail[k - 1] == y);
                    assert(t2.contains(y));
                    let m = choose|m: int| 0 <= m < t2.len() && t2[m] == y;
                    assert(r2[m + 1] == y);
                }
            }
            if y == x {
                assert(t2.contains(x));
                let m = choose|m: int| 0 <= m < t2.len() && t2[m] == x;
                assert(r2[m + 1] == y);
            }
        }
        assert forall|i: int, j: int| 0 <= i < j < r2.len() implies lex_lt(#[trigger] r2[i], #[trigger] r2[j]) by {
            if i == 0 {
                let y = r2[j];
                assert(t2[j - 1] == y);
                assert(t2.contains(y));
                if y == x {
                } else {
                    assert(tail.contains(y));
                    let m = choose|m: int| 0 <= m < tail.len() && tail[m] == y;
                    assert(r[m + 1] == y);
                    assert(lex_lt(r[0], r[m + 1]));
                }
            } else {
                assert(r2[i] == t2[i - 1] && r2[j] == t2[j - 1]);
            }
        }
        r2
    }
}

/// Every sequence has a sorted set with the same elements.
pub proof fn sorted_witness(s: Seq<Seq<char>>) -> (r: Seq<Seq<char>>)
    ensures
        sorted_set(r),
        same_elements(r, s),
    decreases s.len(),
{
    if s.len() == 0 {
        let r = Seq::<Seq<char>>::empty();
        assert forall|x: Seq<char>| r.contains(x) <==> s.contains(x) by {
            if s.contains(x) {
                let k = choose|k: int| 0 <= k < s.len() && s[k] == x;
            }
        }
        r
    } else {
        let r0 = sorted_witness(s.drop_last());
        let r = lemma_insert_exists(r0, s.last());
        lemma_push_contains(s.drop_last(), s.last());
        assert(s =~= s.drop_last().push(s.last()));
        r
    }
}

/// The sorted set of the distinct elements of `s`.
pub open spec fn sort_set(s: Seq<Seq<char>>) -> Seq<Seq<char>> {
    choose|r: Seq<Seq<char>>| sorted_set(r) && same_elements(r, s)
}

/// Two sorted sets with the same elements are equal.
pub proof fn lemma_sorted_set_unique(a: Seq<Seq<char>>, b: Seq<Seq<char>>)
    requires
        sorted_set(a),
        sorted_set(b),
        same_elements(a, b),
    ensures
        a == b,
    decreases a.len(),
{
    if a.len() == 0 {
        if b.len() > 0 {
            assert(b.contains(b[0]));
        }
        assert(a =~= b);
    } else {
        assert(a.contains(a[0]));
        assert(b.contains(a[0]));
        assert(b.len() > 0);
        assert(b.contains(b[0]));
        assert(a.contains(b[0]));
        if a[0] != b[0] {
            let i = choose|i: int| 0 <= i < a.len() && a[i] == b[0];
            let j = choose|j: int| 0 <= j < b.len() && b[j] == a[0];
            assert(i > 0 && j > 0);
            assert(lex_lt(a[0], a[i]));
            assert(lex_lt(b[0], b[j]));
            lemma_lex_asymmetric(a[0], b[0]);
        }
        let a2 = a.drop_first();
        let b2 = b.drop_first();
        lemma_sorted_no_duplicates(a);
        lemma_sorted_no_duplicates(b);
        assert forall|x: Seq<char>| a2.contains(x) <==> b2.contains(x) by {
            if a2.contains(x) {
                let k = choose|k: int| 0 <= k < a2.len() && a2[k] == x;
                assert(a[k + 1] == x);
                assert(x != a[0]);
                assert(b.contains(x));
                let m = choose|m: int| 0 <= m < b.len() && b[m] == x;
                assert(m != 0);
                assert(b2[m - 1] == x);
            }
            if b2.contains(x) {
                let k = choose|k: int| 0 <= k < b2.len() && b2[k] == x;
                assert(b[k + 1] == x);
                assert(x != b[0]);
                assert(a.contains(x));
                let m = choose|m: int| 0 <= m < a.len() && a[m] == x;
                assert(m != 0);
                assert(a2[m - 1] == x);
            }
        }
        assert forall|i: int, j: int| 0 <= i < j < a2.len() implies lex_lt(#[trigger] a2[i], #[trigger] a2[j]) by {
            assert(a2[i] == a[i + 1] && a2[j] == a[j + 1]);
        }
        assert forall|i: int, j: int| 0 <= i < j < b2.len() implies lex_lt(#[trigger] b2[i], #[trigger] b2[j]) by {
            assert(b2[i] == b[i + 1] && b2[j] == b[j + 1]);
        }
        lemma_sorted_set_unique(a2, b2);
        assert(a =~= seq![a[0]] + a2);
        assert(b =~= seq![b[0]] + b2);
    }
}

/// A sorted set with the elements of `s` is `sort_set(s)`.
pub proof fn lemma_is_sort_set(r: Seq<Seq<char>>, s: Seq<Seq<char>>)
    requires
        sorted_set(r),
        same_elements(r, s),
    ensures
        r == sort_set(s),
        sorted_set(sort_set(s)),
        same_elements(sort_set(s), s),
{
    let c = sort_set(s);
    assert(sorted_set(c) && same_elements(c, s));
    lemma_sorted_set_unique(r, c);
}

/// Whether `a` comes strictly before `b`.
pub fn str_lt(a: &str, b: &str) -> (r: bool)
    ensures
        r == lex_lt(a@, b@),
{
    let x = chars_of(a);
    let y = chars_of(b);
    let mut i: usize = 0;
    assert(x@.skip(0) =~= x@);
    assert(y@.skip(0) =~= y@);
    while i < x.len() && i < y.len() && x[i] == y[i]
        invariant
            i <= x.len(),
            i <= y.len(),
            lex_lt(x@, y@) == lex_lt(x@.skip(i as int), y@.skip(i as int)),
        decreases x.len() - i,
    {
        assert(x@.skip(i as int).drop_first() =~= x@.skip(i + 1));
        assert(y@.skip(i as int).drop_first() =~= y@.skip(i + 1));
        i += 1;
    }
    if i == x.len() {
        i < y.len()
    } else if i == y.len() {
        false
    } else {
        assert(x@.skip(i as int)[0] == x@[i as int]);
        assert(y@.skip(i as int)[0] == y@[i as int]);
        x[i] < y[i]
    }
}

/// Adds a string to a sorted set, keeping it sorted.
pub fn insert_sorted(set: &mut Vec<String>, s: String)
    requires
        sorted_set(views(old(set)@)),
    ensures
        sorted_set(views(final(set)@)),
        forall|x: Seq<char>| #[trigger] views(final(set)@).contains(x) <==> (views(old(set)@).contains(x) || x == s@),
{
    let ghost old_v = views(set@);
    let mut p: usize = 0;
    while p < set.len() && str_lt(set[p].as_str(), s.as_str())
        invariant
            p <= set.len(),
            views(set@) == old_v,
            forall|k: int| 0 <= k < p ==> lex_lt(#[trigger] old_v[k], s@),
        decreases set.len() - p,
    {
        p += 1;
    }
    if p < set.len() && crate::text::str_eq(set[p].as_str(), s.as_str()) {
        assert(old_v[p as int] == s@);
        assert(old_v.contains(s@));
        return;
    }
    proof {
        if p < set.len() {
            assert(!lex_lt(old_v[p as int], s@));
            assert(old_v[p as int] != s@);
            lemma_lex_total(old_v[p as int], s@);
            assert(lex_lt(s@, old_v[p as int]));
            assert forall|k: int| p <= k < old_v.len() implies lex_lt(s@, #[trigger] old_v[k]) by {
                if k > p {
                    lemma_lex_transitive(s@, old_v[p as int], old_v[k]);
                }
            }
        }
    }
    let ghost sv = s@;
    set.insert(p, s);
    let ghost new_v = views(set@);
    assert(new_v =~= old_v.subrange(0, p as int).push(sv) + old_v.subrange(p as int, old_v.len() as int));
    assert forall|i: int, j: int| 0 <= i < j < new_v.len() implies lex_lt(#[trigger] new_v[i], #[trigger] new_v[j]) by {
        if j < p {
            assert(new_v[i] == old_v[i] && new_v[j] == old_v[j]);
        } else if j == p {
            assert(new_v[i] == old_v[i]);
        } else if i < p {
            assert(new_v[i] == old_v[i] && new_v[j] == old_v[j - 1]);
            assert(lex_lt(old_v[i], sv));
            assert(lex_lt(sv, old_v[j - 1]));
            lemma_lex_transitive(old_v[i], sv, old_v[j - 1]);
        } else if i == p {
            assert(new_v[j] == old_v[j - 1]);
        } else {
            assert(new_v[i] == old_v[i - 1] && new_v[j] == old_v[j - 1]);
        }
    }
    assert forall|x: Seq<char>| #[trigger] new_v.contains(x) <==> (old_v.contains(x) || x == sv) by {
        if new_v.contains(x) {
            let k = choose|k: int| 0 <= k < new_v.len() && new_v[k] == x;
            if k < p {
                assert(old_v[k] == x);
            } else if k > p {
                assert(old_v[k - 1] == x);
            }
        }
        if old_v.contains(x) {
            let k = choose|k: int| 0 <= k < old_v.len() && old_v[k] == x;
            if k < p {
                assert(new_v[k] == x);
            } else {
                assert(new_v[k + 1] == x);
            }
        }
        if x == sv {
            assert(new_v[p as int] == x);
        }
    }
}

/// The distinct strings of `items` in sorted order.
pub fn to_sorted_set(items: &Vec<String>) -> (r: Vec<String>)
    ensures
        sorted_set(views(r@)),
        same_elements(views(r@), views(items@)),
        views(r@) == sort_set(views(items@)),
{
    let mut out: Vec<String> = Vec::new();
    for i in 0..items.len()
        invariant
            sorted_set(views(out@)),
            forall|x: Seq<char>| #[trigger] views(out@).contains(x) <==> views(items@).take(i as int).contains(x),
    {
        let s = crate::text::owned(items[i].as_str());
        insert_sorted(&mut out, s);
        let ghost t0 = views(items@).take(i as int);
        let ghost t1 = views(items@).take(i + 1);
        assert(t1 =~= t0.push(items@[i as int]@));
        assert forall|x: Seq<char>| #[trigger] t1.contains(x) <==> (t0.contains(x) || x == items@[i as int]@) by {
            if t1.contains(x) {
                let k = choose|k: int| 0 <= k < t1.len() && t1[k] == x;
                if k < i {
                    assert(t0[k] == x);
                }
            }
            if t0.contains(x) {
                let k = choose|k: int| 0 <= k < t0.len() && t0[k] == x;
                assert(t1[k] == x);
            }
            if x == items@[i as int]@ {
                assert(t1[i as int] == x);
            }
        }
    }
    assert(views(items@).take(items.len() as int) =~= views(items@));
    proof {
        lemma_is_sort_set(views(out@), views(items@));
    }
    out
}

/// Whether a set holds a string.
pub fn contains_str(set: &Vec<String>, s: &str) -> (r: bool)
    ensures
        r == views(set@).contains(s@),
{
    for i in 0..set.len()
        invariant
            forall|k: int| 0 <= k < i ==> views(set@)[k] != s@,
    {
        if crate::text::str_eq(set[i].as_str(), s) {
            assert(views(set@)[i as int] == s@);
            return true;
        }
    }
    false
}

/// The strings of `s` that `t` does not hold, in the order of `s`.
pub fn difference(s: &Vec<String>, t: &Vec<String>) -> (r: Vec<String>)
    ensures
        views(r@) == minus(views(s@), views(t@)),
{
    let mut out: Vec<String> = Vec::new();
    for i in 0..s.len()
        invariant
            views(out@) == minus(views(s@).take(i as int), views(t@)),
    {
        assert(views(s@).take(i + 1).drop_last() =~= views(s@).take(i as int));
        assert(views(s@).take(i + 1).last() == s@[i as int]@);
        if !contains_str(t, s[i].as_str()) {
            let x = crate::text::owned(s[i].as_str());
            let ghost before = out@;
            out.push(x);
            assert(views(out@) =~= views(before).push(x@));
        }
    }
    assert(views(s@).take(s.len() as int) =~= views(s@));
    out
}

} // verus!
