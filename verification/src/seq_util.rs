//! Small sequence lemmas the store proofs lean on, mostly about
//! `Seq::filter`, whose definition is opaque and peels from the back.

use vstd::prelude::*;

verus! {

/// Filtering a sequence extended by one element keeps the old result and
/// appends the new element exactly when it satisfies the predicate.
pub proof fn lemma_filter_push<A>(s: Seq<A>, x: A, pred: spec_fn(A) -> bool)
    ensures
        s.push(x).filter(pred) == if pred(x) {
            s.filter(pred).push(x)
        } else {
            s.filter(pred)
        },
{
    reveal(Seq::filter);
    assert(s.push(x).drop_last() =~= s);
    assert(s.push(x).last() == x);
}

/// A sequence whose elements all satisfy the predicate filters to itself.
pub proof fn lemma_filter_all<A>(s: Seq<A>, pred: spec_fn(A) -> bool)
    requires
        forall|i: int| 0 <= i < s.len() ==> pred(#[trigger] s[i]),
    ensures
        s.filter(pred) == s,
    decreases s.len(),
{
    reveal(Seq::filter);
    if s.len() > 0 {
        lemma_filter_all(s.drop_last(), pred);
        assert(s.drop_last().push(s.last()) =~= s);
    }
}

/// A sequence none of whose elements satisfies the predicate filters to the
/// empty sequence.
pub proof fn lemma_filter_none<A>(s: Seq<A>, pred: spec_fn(A) -> bool)
    requires
        forall|i: int| 0 <= i < s.len() ==> !pred(#[trigger] s[i]),
    ensures
        s.filter(pred) == Seq::<A>::empty(),
    decreases s.len(),
{
    reveal(Seq::filter);
    if s.len() > 0 {
        lemma_filter_none(s.drop_last(), pred);
    }
}

/// Every element of a filtered sequence satisfies the predicate.
pub proof fn lemma_filter_sound<A>(s: Seq<A>, pred: spec_fn(A) -> bool)
    ensures
        forall|i: int|
            0 <= i < s.filter(pred).len() ==> pred(#[trigger] s.filter(pred)[i]),
{
    broadcast use vstd::seq_lib::group_filter_ensures;

}

/// Filtering keeps only existing elements, so pairwise-distinct keys stay
/// pairwise distinct and key bounds carry over.
pub proof fn lemma_filter_distinct_keys<A>(
    s: Seq<A>,
    pred: spec_fn(A) -> bool,
    key: spec_fn(A) -> int,
    lo: int,
    hi: int,
)
    requires
        forall|i: int| 0 <= i < s.len() ==> lo <= key(#[trigger] s[i]) < hi,
        forall|i: int, j: int| #![trigger key(s[i]), key(s[j])]
            0 <= i < j < s.len() ==> key(s[i]) != key(s[j]),
    ensures
        forall|t: int|
            0 <= t < s.filter(pred).len() ==> lo <= key(#[trigger] s.filter(pred)[t]) < hi,
        forall|t: int, u: int| #![trigger key(s.filter(pred)[t]), key(s.filter(pred)[u])]
            0 <= t < u < s.filter(pred).len() ==> key(s.filter(pred)[t]) != key(
                s.filter(pred)[u],
            ),
        forall|t: int| 0 <= t < s.filter(pred).len() ==> s.contains(#[trigger] s.filter(pred)[t]),
    decreases s.len(),
{
    reveal(Seq::filter);
    if s.len() > 0 {
        let d = s.drop_last();
        lemma_filter_distinct_keys(d, pred, key, lo, hi);
        assert forall|t: int| 0 <= t < d.filter(pred).len() implies s.contains(
            #[trigger] d.filter(pred)[t],
        ) by {
            let e = d.filter(pred)[t];
            let u = choose|u: int| 0 <= u < d.len() && d[u] == e;
            assert(s[u] == e);
        }
        if pred(s.last()) {
            let f = s.filter(pred);
            assert(f == d.filter(pred).push(s.last()));
            assert forall|t: int, u: int| #![trigger key(f[t]), key(f[u])]
                0 <= t < u < f.len() implies key(f[t]) != key(f[u]) by {
                if u < f.len() - 1 {
                    assert(key(d.filter(pred)[t]) != key(d.filter(pred)[u]));
                } else {
                    let e = f[t];
                    let w = choose|w: int| 0 <= w < d.len() && d[w] == e;
                    assert(key(s[w]) != key(s[s.len() - 1]));
                }
            }
        }
    }
}

/// Filtering distributes over concatenation.
pub proof fn lemma_filter_app<A>(a: Seq<A>, b: Seq<A>, pred: spec_fn(A) -> bool)
    ensures
        (a + b).filter(pred) == a.filter(pred) + b.filter(pred),
{
    Seq::filter_distributes_over_add(a, b, pred);
}

} // verus!
