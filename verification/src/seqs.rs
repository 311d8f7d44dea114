//! Facts about filtered sequences that the proofs of the store share.

use vstd::prelude::*;

verus! {

/// Filtering a sequence with one more element keeps that element if it
/// meets the condition, and all that was kept before.
pub proof fn lemma_filter_push<A>(s: Seq<A>, last: A, pred: spec_fn(A) -> bool)
    ensures
        s.push(last).filter(pred) == if pred(last) {
            s.filter(pred).push(last)
        } else {
            s.filter(pred)
        },
{
    reveal(Seq::filter);
    assert(s.push(last).drop_last() =~= s);
}

/// Where one element alone meets the condition, it alone is kept.
pub proof fn lemma_filter_single<A>(s: Seq<A>, pred: spec_fn(A) -> bool, at: int)
    requires
        0 <= at < s.len(),
        pred(s[at]),
        forall|j: int| 0 <= j < s.len() && j != at ==> !pred(#[trigger] s[j]),
    ensures
        s.filter(pred) == seq![s[at]],
    decreases s.len(),
{
    let front = s.drop_last();
    assert(s =~= front.push(s.last()));
    lemma_filter_push(front, s.last(), pred);
    if at == s.len() - 1 {
        front.lemma_all_neg_filter_empty(pred);
    } else {
        lemma_filter_single(front, pred, at);
    }
}

/// Where no element meets the condition, none is kept.
pub proof fn lemma_filter_none<A>(s: Seq<A>, pred: spec_fn(A) -> bool)
    requires
        forall|j: int| 0 <= j < s.len() ==> !pred(#[trigger] s[j]),
    ensures
        s.filter(pred) == Seq::<A>::empty(),
{
    s.lemma_all_neg_filter_empty(pred);
}

/// Filtering keeps a sequence free of duplicates.
pub proof fn lemma_filter_no_duplicates<A>(s: Seq<A>, pred: spec_fn(A) -> bool)
    requires
        s.no_duplicates(),
    ensures
        s.filter(pred).no_duplicates(),
    decreases s.len(),
{
    if s.len() > 0 {
        let front = s.drop_last();
        assert(s =~= front.push(s.last()));
        lemma_filter_push(front, s.last(), pred);
        lemma_filter_no_duplicates(front, pred);
        if front.filter(pred).contains(s.last()) {
            front.lemma_filter_contains_rev(pred, s.last());
            let j = choose|j: int| 0 <= j < front.len() && front[j] == s.last();
            assert(s[j] == s[s.len() - 1]);
        }
    }
}

/// Two sequences without duplicates that hold the same elements have the
/// same length.
pub proof fn lemma_same_elements_same_length<A>(a: Seq<A>, b: Seq<A>)
    requires
        a.no_duplicates(),
        b.no_duplicates(),
        forall|x: A| a.contains(x) <==> b.contains(x),
    ensures
        a.len() == b.len(),
{
    a.unique_seq_to_set();
    b.unique_seq_to_set();
    assert(a.to_set() =~= b.to_set());
}

} // verus!
