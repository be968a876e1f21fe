//! Texts in `String` order (by code point, shorter prefix first), and sorted lists of
//! distinct texts.
use vstd::prelude::*;
use crate::text::{chars_of, views};

verus! {

/// `a` comes before `b` in `String` order.
pub open spec fn seq_lt(a: Seq<char>, b: Seq<char>) -> bool
    decreases a.len(),
{
    if a.len() == 0 {
        b.len() > 0
    } else if b.len() == 0 {
        false
    } else if a[0] != b[0] {
        (a[0] as u32) < (b[0] as u32)
    } else {
        seq_lt(a.drop_first(), b.drop_first())
    }
}

pub proof fn lemma_lt_irreflexive(a: Seq<char>)
    ensures
        !seq_lt(a, a),
    decreases a.len(),
{
    if a.len() > 0 {
        lemma_lt_irreflexive(a.drop_first());
    }
}

pub proof fn lemma_lt_transitive(a: Seq<char>, b: Seq<char>, c: Seq<char>)
    requires
        seq_lt(a, b),
        seq_lt(b, c),
    ensures
        seq_lt(a, c),
    decreases a.len(),
{
    if a.len() > 0 && b.len() > 0 && c.len() > 0 {
        if a[0] == b[0] && b[0] == c[0] {
            lemma_lt_transitive(a.drop_first(), b.drop_first(), c.drop_first());
        }
    }
}

pub proof fn lemma_lt_total(a: Seq<char>, b: Seq<char>)
    requires
        a != b,
    ensures
        seq_lt(a, b) || seq_lt(b, a),
    decreases a.len(),
{
    if a.len() == 0 && b.len() == 0 {
        assert(a =~= b);
    } else if a.len() > 0 && b.len() > 0 {
        if a[0] == b[0] {
            if a.drop_first() =~= b.drop_first() {
                assert(a =~= seq![a[0]] + a.drop_first());
                assert(b =~= seq![b[0]] + b.drop_first());
                assert(a =~= b);
            } else {
                lemma_lt_total(a.drop_first(), b.drop_first());
            }
        } else {
            vstd::utf8::char_u32_cast(a[0], a[0] as u32);
            vstd::utf8::char_u32_cast(b[0], b[0] as u32);
            assert((a[0] as u32) != (b[0] as u32));
        }
    }
}

pub proof fn lemma_lt_asymmetric(a: Seq<char>, b: Seq<char>)
    requires
        seq_lt(a, b),
    ensures
        !seq_lt(b, a),
{
    if seq_lt(b, a) {
        lemma_lt_transitive(a, b, a);
        lemma_lt_irreflexive(a);
    }
}

/// Whether `a` comes before `b` in `String` order.
pub fn text_lt(a: &str, b: &str) -> (r: bool)
    ensures
        r == seq_lt(a@, b@),
{
    let x = chars_of(a);
    let y = chars_of(b);
    let mut i: usize = 0;
    assert(x@.subrange(0, x@.len() as int) =~= x@);
    assert(y@.subrange(0, y@.len() as int) =~= y@);
    while i < x.len() && i < y.len() && x[i] == y[i]
        invariant
            i <= x.len(),
            i <= y.len(),
            seq_lt(x@, y@) == seq_lt(x@.subrange(i as int, x@.len() as int), y@.subrange(i as int, y@.len() as int)),
        decreases x.len() - i,
    {
        assert(x@.subrange(i as int, x@.len() as int).drop_first() =~= x@.subrange(i + 1, x@.len() as int));
        assert(y@.subrange(i as int, y@.len() as int).drop_first() =~= y@.subrange(i + 1, y@.len() as int));
        i = i + 1;
    }
    let ghost xs = x@.subrange(i as int, x@.len() as int);
    let ghost ys = y@.subrange(i as int, y@.len() as int);
    if i == x.len() {
        i < y.len()
    } else if i == y.len() {
        false
    } else {
        assert(xs[0] == x@[i as int] && ys[0] == y@[i as int]);
        (x[i] as u32) < (y[i] as u32)
    }
}

/// Strictly increasing in `String` order, so also without repeats.
pub open spec fn sorted_distinct(s: Seq<Seq<char>>) -> bool {
    forall|i: int, j: int| 0 <= i < j < s.len() ==> seq_lt(#[trigger] s[i], #[trigger] s[j])
}

/// Adds `key` to a sorted list of distinct texts, keeping it sorted; nothing changes
/// when the key is already there.
pub fn insert_sorted(list: &mut Vec<String>, key: &String)
    requires
        sorted_distinct(views(old(list)@)),
    ensures
        sorted_distinct(views(final(list)@)),
        views(final(list)@).to_set() == views(old(list)@).to_set().insert(key@),
{
    let ghost old_v = views(list@);
    let mut p: usize = 0;
    while p < list.len() && text_lt(list[p].as_str(), key.as_str())
        invariant
            p <= list.len(),
            views(list@) == old_v,
            sorted_distinct(old_v),
            forall|j: int| 0 <= j < p ==> seq_lt(#[trigger] old_v[j], key@),
        decreases list.len() - p,
    {
        assert(old_v[p as int] == list@[p as int]@);
        p = p + 1;
    }
    if p < list.len() && list[p] == *key {
        assert(old_v[p as int] == key@);
        assert(old_v.to_set().insert(key@) =~= old_v.to_set()) by {
            assert(old_v.contains(key@));
        }
        return;
    }
    proof {
        if p < list.len() {
            assert(old_v[p as int] == list@[p as int]@);
            assert(!seq_lt(old_v[p as int], key@));
            assert(old_v[p as int] != key@);
            lemma_lt_total(old_v[p as int], key@);
        }
    }
    list.insert(p, key.clone());
    proof {
        let nv = views(list@);
        assert(nv =~= old_v.subrange(0, p as int).push(key@) + old_v.subrange(p as int, old_v.len() as int));
        assert forall|i: int, j: int| 0 <= i < j < nv.len() implies seq_lt(#[trigger] nv[i], #[trigger] nv[j]) by {
            if j < p {
                assert(nv[i] == old_v[i] && nv[j] == old_v[j]);
            } else if j == p {
                assert(nv[i] == old_v[i]);
            } else if i == p {
                assert(nv[j] == old_v[j - 1]);
                if j - 1 > p {
                    assert(seq_lt(old_v[p as int], old_v[j - 1]));
                    lemma_lt_transitive(key@, old_v[p as int], old_v[j - 1]);
                }
            } else if i < p {
                assert(nv[i] == old_v[i] && nv[j] == old_v[j - 1]);
            } else {
                assert(nv[i] == old_v[i - 1] && nv[j] == old_v[j - 1]);
            }
        }
        assert forall|x: Seq<char>| nv.to_set().contains(x) <==> old_v.to_set().insert(key@).contains(x) by {
            if nv.contains(x) {
                let k = choose|k: int| 0 <= k < nv.len() && nv[k] == x;
                if k < p {
                    assert(old_v[k] == x);
                } else if k > p {
                    assert(old_v[k - 1] == x);
                }
            }
            if old_v.contains(x) {
                let k = choose|k: int| 0 <= k < old_v.len() && old_v[k] == x;
                if k < p {
                    assert(nv[k] == x);
                } else {
                    assert(nv[k + 1] == x);
                }
            }
            if x == key@ {
                assert(nv[p as int] == x);
            }
        }
        assert(nv.to_set() =~= old_v.to_set().insert(key@));
    }
}


/// Whether a list of texts is in ascending order (equal neighbours allowed).
pub open spec fn sorted(s: Seq<Seq<char>>) -> bool {
    forall|i: int, j: int| 0 <= i < j < s.len() ==> !seq_lt(#[trigger] s[j], #[trigger] s[i])
}

/// Adds `key` to an ascending list of texts after any equal ones, keeping it ascending.
pub fn insert_ordered(list: &mut Vec<String>, key: String)
    requires
        sorted(views(old(list)@)),
    ensures
        sorted(views(final(list)@)),
        views(final(list)@).to_multiset() == views(old(list)@).to_multiset().insert(key@),
{
    broadcast use vstd::seq_lib::group_to_multiset_ensures;

    let ghost old_v = views(list@);
    let mut p: usize = 0;
    while p < list.len() && !text_lt(key.as_str(), list[p].as_str())
        invariant
            p <= list.len(),
            views(list@) == old_v,
            sorted(old_v),
            forall|j: int| 0 <= j < p ==> !seq_lt(key@, #[trigger] old_v[j]),
        decreases list.len() - p,
    {
        assert(old_v[p as int] == list@[p as int]@);
        p = p + 1;
    }
    proof {
        if p < list.len() {
            assert(old_v[p as int] == list@[p as int]@);
        }
    }
    let ghost k = key@;
    list.insert(p, key);
    proof {
        let nv = views(list@);
        assert(nv =~= old_v.insert(p as int, k));
        assert forall|i: int, j: int| 0 <= i < j < nv.len() implies !seq_lt(#[trigger] nv[j], #[trigger] nv[i]) by {
            if j < p {
                assert(nv[i] == old_v[i] && nv[j] == old_v[j]);
            } else if j == p {
                assert(nv[i] == old_v[i]);
            } else if i == p {
                assert(nv[j] == old_v[j - 1]);
                assert(seq_lt(k, old_v[p as int]));
                if seq_lt(old_v[j - 1], k) {
                    if j - 1 == p {
                        lemma_lt_asymmetric(k, old_v[p as int]);
                    } else {
                        lemma_lt_transitive(old_v[j - 1], k, old_v[p as int]);
                    }
                }
            } else if i < p {
                assert(nv[i] == old_v[i] && nv[j] == old_v[j - 1]);
            } else {
                assert(nv[i] == old_v[i - 1] && nv[j] == old_v[j - 1]);
            }
        }
    }
}


proof fn lemma_sorted_distinct_drop_first(a: Seq<Seq<char>>)
    requires
        sorted_distinct(a),
        a.len() > 0,
    ensures
        sorted_distinct(a.drop_first()),
        !a.drop_first().contains(a[0]),
        a.drop_first().to_set() == a.to_set().remove(a[0]),
{
    let d = a.drop_first();
    assert forall|i: int, j: int| 0 <= i < j < d.len() implies seq_lt(#[trigger] d[i], #[trigger] d[j]) by {
        assert(d[i] == a[i + 1] && d[j] == a[j + 1]);
    }
    if d.contains(a[0]) {
        let k = choose|k: int| 0 <= k < d.len() && d[k] == a[0];
        assert(seq_lt(a[0], a[k + 1]));
        lemma_lt_irreflexive(a[0]);
    }
    assert forall|x: Seq<char>| #[trigger] d.to_set().contains(x) <==> a.to_set().remove(a[0]).contains(x) by {
        if d.contains(x) {
            let k = choose|k: int| 0 <= k < d.len() && d[k] == x;
            assert(a[k + 1] == x);
        }
        if a.contains(x) && x != a[0] {
            let k = choose|k: int| 0 <= k < a.len() && a[k] == x;
            assert(d[k - 1] == x);
        }
    }
    assert(d.to_set() =~= a.to_set().remove(a[0]));
}

/// A set of texts has exactly one ascending list without repeats: two such lists with
/// the same elements are equal.
pub proof fn lemma_sorted_distinct_unique(a: Seq<Seq<char>>, b: Seq<Seq<char>>)
    requires
        sorted_distinct(a),
        sorted_distinct(b),
        a.to_set() == b.to_set(),
    ensures
        a == b,
    decreases a.len(),
{
    if a.len() == 0 {
        if b.len() > 0 {
            assert(b.to_set().contains(b[0]));
        }
        assert(a =~= b);
    } else {
        if b.len() == 0 {
            assert(a.to_set().contains(a[0]));
        }
        assert(a.to_set().contains(a[0]) && b.to_set().contains(b[0]));
        if a[0] != b[0] {
            let j = choose|j: int| 0 <= j < b.len() && b[j] == a[0];
            let k = choose|k: int| 0 <= k < a.len() && a[k] == b[0];
            assert(j > 0 && k > 0);
            assert(seq_lt(b[0], b[j]));
            assert(seq_lt(a[0], a[k]));
            lemma_lt_asymmetric(a[0], b[0]);
        }
        lemma_sorted_distinct_drop_first(a);
        lemma_sorted_distinct_drop_first(b);
        lemma_sorted_distinct_unique(a.drop_first(), b.drop_first());
        assert(a =~= seq![a[0]] + a.drop_first());
        assert(b =~= seq![b[0]] + b.drop_first());
    }
}

} // verus!
