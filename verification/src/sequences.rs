//! Facts about filtered sequences that the proofs of this crate share.

use vstd::prelude::*;

verus! {

/// Filtering a sequence that ends in `last` filters what comes before, and
/// keeps `last` exactly when the predicate holds of it.
pub proof fn lemma_filter_push<A>(s: Seq<A>, last: A, pred: spec_fn(A) -> bool)
    ensures
        s.push(last).filter(pred) == if pred(last) {
            s.filter(pred).push(last)
        } else {
            s.filter(pred)
        },
{
    reveal(Seq::filter);
    assert(s.push(last).drop_last() =~= s);
}

/// The first `n + 1` items are the first `n` items and the one after them.
pub proof fn lemma_take_next<A>(s: Seq<A>, n: int)
    requires
        0 <= n < s.len(),
    ensures
        s.take(n + 1) == s.take(n).push(s[n]),
{
}

/// The items of a sequence that ends in `last` are the items before it and
/// `last`.
pub proof fn lemma_push_to_set<A>(s: Seq<A>, last: A)
    ensures
        s.push(last).to_set() == s.to_set().insert(last),
{
    assert forall|a: A| s.to_set().insert(last).contains(a) implies s.push(last).to_set().contains(
        a,
    ) by {
        if a == last {
            assert(s.push(last)[s.len() as int] == a);
        } else {
            let i = choose|i: int| 0 <= i < s.len() && s[i] == a;
            assert(s.push(last)[i] == a);
        }
    }
}

/// A filtered sequence holds the items of the sequence of which the
/// predicate holds, and no others.
pub proof fn lemma_filter_to_set<A>(s: Seq<A>, pred: spec_fn(A) -> bool)
    ensures
        s.filter(pred).to_set() == s.to_set().filter(pred),
    decreases s.len(),
{
    if s.len() == 0 {
        reveal(Seq::filter);
    } else {
        let front = s.drop_last();
        let last = s.last();
        assert(s == front.push(last));
        lemma_filter_to_set(front, pred);
        lemma_filter_push(front, last, pred);
        lemma_push_to_set(front, last);
        if pred(last) {
            lemma_push_to_set(front.filter(pred), last);
        }
    }
}

/// Filtering a sequence without repetitions leaves one without repetitions.
pub proof fn lemma_filter_no_duplicates<A>(s: Seq<A>, pred: spec_fn(A) -> bool)
    requires
        s.no_duplicates(),
    ensures
        s.filter(pred).no_duplicates(),
    decreases s.len(),
{
    if s.len() == 0 {
        reveal(Seq::filter);
    } else {
        let front = s.drop_last();
        let last = s.last();
        assert(s == front.push(last));
        lemma_filter_no_duplicates(front, pred);
        lemma_filter_push(front, last, pred);
        if pred(last) {
            let kept = front.filter(pred);
            lemma_filter_to_set(front, pred);
            assert forall|i: int| 0 <= i < kept.len() implies kept[i] != last by {
                assert(kept.to_set().contains(kept[i]));
                assert(front.contains(kept[i]));
            }
        }
    }
}

} // verus!
