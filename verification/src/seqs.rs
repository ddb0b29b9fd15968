//! Lemmas about filtering key-sorted sequences: the metadata tables are
//! sequences of rows sorted strictly by identifier, and every query over
//! them is a filter.

use vstd::prelude::*;

verus! {

/// Strictly ascending under the key projection: order is kept and no key
/// repeats.
pub open spec fn sorted_by<T>(s: Seq<T>, key: spec_fn(T) -> int) -> bool {
    forall|i: int, j: int| 0 <= i < j < s.len() ==> key(s[i]) < key(s[j])
}

/// Keys are pairwise distinct under the key projection.
pub open spec fn distinct_keys<T, K>(s: Seq<T>, key: spec_fn(T) -> K) -> bool {
    forall|i: int, j: int| 0 <= i < j < s.len() ==> key(s[i]) != key(s[j])
}

/// A filter keeps a key-sorted sequence key-sorted.
pub proof fn lemma_filter_sorted<T>(s: Seq<T>, pred: spec_fn(T) -> bool, key: spec_fn(T) -> int)
    requires
        sorted_by(s, key),
    ensures
        sorted_by(s.filter(pred), key),
    decreases s.len(),
{
    reveal(Seq::filter);
    if s.len() > 0 {
        let rest = s.drop_last();
        assert forall|i: int, j: int| 0 <= i < j < rest.len() implies key(rest[i]) < key(
            rest[j],
        ) by {
            assert(rest[i] == s[i]);
            assert(rest[j] == s[j]);
        }
        lemma_filter_sorted(rest, pred, key);
        if pred(s.last()) {
            let fr = rest.filter(pred);
            assert forall|i: int| 0 <= i < fr.len() implies key(fr[i]) < key(s.last()) by {
                assert(fr.contains(fr[i]));
                rest.lemma_filter_contains_rev(pred, fr[i]);
                let j = choose|j: int| 0 <= j < rest.len() && rest[j] == fr[i];
                assert(rest[j] == s[j]);
                assert(key(s[j]) < key(s[s.len() - 1]));
            }
            assert(s.filter(pred) == fr.push(s.last()));
        }
    }
}

/// A filter keeps keys pairwise distinct.
pub proof fn lemma_filter_distinct_keys<T, K>(
    s: Seq<T>,
    pred: spec_fn(T) -> bool,
    key: spec_fn(T) -> K,
)
    requires
        distinct_keys(s, key),
    ensures
        distinct_keys(s.filter(pred), key),
    decreases s.len(),
{
    reveal(Seq::filter);
    if s.len() > 0 {
        let rest = s.drop_last();
        assert forall|i: int, j: int| 0 <= i < j < rest.len() implies key(rest[i]) != key(
            rest[j],
        ) by {
            assert(rest[i] == s[i]);
            assert(rest[j] == s[j]);
        }
        lemma_filter_distinct_keys(rest, pred, key);
        if pred(s.last()) {
            let fr = rest.filter(pred);
            assert forall|i: int| 0 <= i < fr.len() implies key(fr[i]) != key(s.last()) by {
                assert(fr.contains(fr[i]));
                rest.lemma_filter_contains_rev(pred, fr[i]);
                let j = choose|j: int| 0 <= j < rest.len() && rest[j] == fr[i];
                assert(rest[j] == s[j]);
                assert(key(s[j]) != key(s[s.len() - 1]));
            }
            assert(s.filter(pred) == fr.push(s.last()));
        }
    }
}

/// A filter whose predicate holds everywhere changes nothing.
pub proof fn lemma_filter_all_true<T>(s: Seq<T>, pred: spec_fn(T) -> bool)
    requires
        forall|i: int| 0 <= i < s.len() ==> pred(#[trigger] s[i]),
    ensures
        s.filter(pred) == s,
    decreases s.len(),
{
    reveal(Seq::filter);
    if s.len() > 0 {
        let rest = s.drop_last();
        assert forall|i: int| 0 <= i < rest.len() implies pred(#[trigger] rest[i]) by {
            assert(rest[i] == s[i]);
        }
        lemma_filter_all_true(rest, pred);
        assert(pred(s[s.len() - 1]));
        assert(rest.filter(pred).push(s.last()) =~= s);
    }
}

/// A filter whose predicate fails at exactly one position removes exactly
/// that element.
pub proof fn lemma_filter_except_one<T>(s: Seq<T>, pred: spec_fn(T) -> bool, j: int)
    requires
        0 <= j < s.len(),
        !pred(s[j]),
        forall|i: int| 0 <= i < s.len() && i != j ==> pred(#[trigger] s[i]),
    ensures
        s.filter(pred) == s.remove(j),
    decreases s.len(),
{
    reveal(Seq::filter);
    let rest = s.drop_last();
    if j == s.len() - 1 {
        assert forall|i: int| 0 <= i < rest.len() implies pred(#[trigger] rest[i]) by {
            assert(rest[i] == s[i]);
        }
        lemma_filter_all_true(rest, pred);
        assert(s.filter(pred) =~= s.remove(j));
    } else {
        assert(rest[j] == s[j]);
        assert forall|i: int| 0 <= i < rest.len() && i != j implies pred(#[trigger] rest[i]) by {
            assert(rest[i] == s[i]);
        }
        lemma_filter_except_one(rest, pred, j);
        assert(pred(s[s.len() - 1]));
        assert(s.filter(pred) == rest.remove(j).push(s.last()));
        assert(rest.remove(j).push(s.last()) =~= s.remove(j));
    }
}

/// A filter whose predicate holds at exactly one position keeps exactly
/// that element.
pub proof fn lemma_filter_only_one<T>(s: Seq<T>, pred: spec_fn(T) -> bool, j: int)
    requires
        0 <= j < s.len(),
        pred(s[j]),
        forall|i: int| 0 <= i < s.len() && i != j ==> !pred(#[trigger] s[i]),
    ensures
        s.filter(pred) == seq![s[j]],
    decreases s.len(),
{
    reveal(Seq::filter);
    let rest = s.drop_last();
    if j == s.len() - 1 {
        assert forall|i: int| 0 <= i < rest.len() implies !pred(#[trigger] rest[i]) by {
            assert(rest[i] == s[i]);
        }
        rest.lemma_all_neg_filter_empty(pred);
        assert(s.filter(pred) =~= seq![s[j]]);
    } else {
        assert(rest[j] == s[j]);
        assert forall|i: int| 0 <= i < rest.len() && i != j implies !pred(#[trigger] rest[i]) by {
            assert(rest[i] == s[i]);
        }
        lemma_filter_only_one(rest, pred, j);
        assert(!pred(s[s.len() - 1]));
    }
}

/// Filtering by a predicate that implies another is the same whether or not
/// the weaker filter ran first.
pub proof fn lemma_filter_subsumed<T>(s: Seq<T>, weak: spec_fn(T) -> bool, strong: spec_fn(
    T,
) -> bool)
    requires
        forall|x: T| #[trigger] strong(x) ==> weak(x),
    ensures
        s.filter(weak).filter(strong) == s.filter(strong),
    decreases s.len(),
{
    reveal(Seq::filter);
    if s.len() > 0 {
        let rest = s.drop_last();
        lemma_filter_subsumed(rest, weak, strong);
        if weak(s.last()) {
            assert(s.filter(weak) == rest.filter(weak).push(s.last()));
            rest.filter(weak).lemma_filter_push(s.last(), strong);
        }
    }
}

/// A filter whose predicate fails on a prefix and holds on the rest of a
/// sequence keeps exactly that rest.
pub proof fn lemma_filter_boundary<T>(s: Seq<T>, pred: spec_fn(T) -> bool, n: int)
    requires
        0 <= n <= s.len(),
        forall|i: int| 0 <= i < n ==> !pred(#[trigger] s[i]),
        forall|i: int| n <= i < s.len() ==> pred(#[trigger] s[i]),
    ensures
        s.filter(pred) == s.skip(n),
    decreases s.len(),
{
    reveal(Seq::filter);
    if s.len() == 0 {
        assert(s.filter(pred) =~= s.skip(n));
    } else if n == s.len() {
        s.lemma_all_neg_filter_empty(pred);
        assert(s.skip(n) =~= Seq::<T>::empty());
    } else {
        let rest = s.drop_last();
        assert forall|i: int| 0 <= i < n implies !pred(#[trigger] rest[i]) by {
            assert(rest[i] == s[i]);
        }
        assert forall|i: int| n <= i < rest.len() implies pred(#[trigger] rest[i]) by {
            assert(rest[i] == s[i]);
        }
        lemma_filter_boundary(rest, pred, n);
        assert(pred(s[s.len() - 1]));
        assert(s.filter(pred) == rest.skip(n).push(s.last()));
        assert(rest.skip(n).push(s.last()) =~= s.skip(n));
    }
}

/// A property that holds of every element of a sequence holds of every
/// element its filter keeps.
pub proof fn lemma_filter_elements<T>(s: Seq<T>, pred: spec_fn(T) -> bool, q: spec_fn(T) -> bool)
    requires
        forall|i: int| 0 <= i < s.len() ==> q(#[trigger] s[i]),
    ensures
        forall|i: int| 0 <= i < s.filter(pred).len() ==> q(#[trigger] s.filter(pred)[i]),
    decreases s.len(),
{
    reveal(Seq::filter);
    if s.len() > 0 {
        let rest = s.drop_last();
        assert forall|i: int| 0 <= i < rest.len() implies q(#[trigger] rest[i]) by {
            assert(rest[i] == s[i]);
        }
        lemma_filter_elements(rest, pred, q);
        assert(q(s[s.len() - 1]));
        if pred(s.last()) {
            assert(s.filter(pred) == rest.filter(pred).push(s.last()));
        }
    }
}

/// Two predicates that agree on every element of a sequence filter it to
/// the same result.
pub proof fn lemma_filter_congruent<T>(s: Seq<T>, p1: spec_fn(T) -> bool, p2: spec_fn(T) -> bool)
    requires
        forall|i: int| 0 <= i < s.len() ==> (p1(#[trigger] s[i]) <==> p2(s[i])),
    ensures
        s.filter(p1) == s.filter(p2),
    decreases s.len(),
{
    reveal(Seq::filter);
    if s.len() > 0 {
        let rest = s.drop_last();
        assert forall|i: int| 0 <= i < rest.len() implies (p1(#[trigger] rest[i]) <==> p2(
            rest[i],
        )) by {
            assert(rest[i] == s[i]);
        }
        lemma_filter_congruent(rest, p1, p2);
        assert(p1(s[s.len() - 1]) <==> p2(s[s.len() - 1]));
    }
}

/// Removing one element keeps a key-sorted sequence key-sorted.
pub proof fn lemma_remove_sorted<T>(s: Seq<T>, key: spec_fn(T) -> int, j: int)
    requires
        sorted_by(s, key),
        0 <= j < s.len(),
    ensures
        sorted_by(s.remove(j), key),
{
    let r = s.remove(j);
    assert forall|a: int, b: int| 0 <= a < b < r.len() implies key(r[a]) < key(r[b]) by {
        let a0 = if a < j {
            a
        } else {
            a + 1
        };
        let b0 = if b < j {
            b
        } else {
            b + 1
        };
        assert(r[a] == s[a0]);
        assert(r[b] == s[b0]);
    }
}

} // verus!
