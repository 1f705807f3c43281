//! Facts about filtering a sequence.

use vstd::prelude::*;

verus! {

/// Filtering a sequence in which nothing meets the predicate leaves nothing.
pub proof fn lemma_filter_none<A>(s: Seq<A>, pred: spec_fn(A) -> bool)
    requires
        forall|i: int| 0 <= i < s.len() ==> !pred(#[trigger] s[i]),
    ensures
        s.filter(pred) == Seq::<A>::empty(),
    decreases s.len(),
{
    reveal(Seq::filter);
    if s.len() > 0 {
        lemma_filter_none(s.drop_last(), pred);
    }
}

/// Filtering a sequence in which everything meets the predicate changes nothing.
pub proof fn lemma_filter_all<A>(s: Seq<A>, pred: spec_fn(A) -> bool)
    requires
        forall|i: int| 0 <= i < s.len() ==> pred(#[trigger] s[i]),
    ensures
        s.filter(pred) == s,
    decreases s.len(),
{
    reveal(Seq::filter);
    if s.len() > 0 {
        lemma_filter_all(s.drop_last(), pred);
        assert(s.drop_last().push(s.last()) =~= s);
    }
}

/// Filtering three parts of which the first and the last hold nothing that
/// meets the predicate, and the middle nothing else, leaves the middle.
pub proof fn lemma_filter_middle<A>(
    first: Seq<A>,
    middle: Seq<A>,
    last: Seq<A>,
    pred: spec_fn(A) -> bool,
)
    requires
        forall|i: int| 0 <= i < first.len() ==> !pred(#[trigger] first[i]),
        forall|i: int| 0 <= i < middle.len() ==> pred(#[trigger] middle[i]),
        forall|i: int| 0 <= i < last.len() ==> !pred(#[trigger] last[i]),
    ensures
        (first + middle + last).filter(pred) == middle,
{
    Seq::filter_distributes_over_add(first + middle, last, pred);
    Seq::filter_distributes_over_add(first, middle, pred);
    lemma_filter_none(first, pred);
    lemma_filter_all(middle, pred);
    lemma_filter_none(last, pred);
    assert(Seq::<A>::empty() + middle + Seq::<A>::empty() =~= middle);
}

/// Filtering a sequence with one more element at its end keeps that element
/// exactly where it meets the predicate.
pub proof fn lemma_filter_push<A>(s: Seq<A>, last: A, pred: spec_fn(A) -> bool)
    ensures
        (s + seq![last]).filter(pred) == if pred(last) {
            s.filter(pred) + seq![last]
        } else {
            s.filter(pred)
        },
{
    reveal(Seq::filter);
    let whole = s + seq![last];
    assert(whole.drop_last() =~= s);
    assert(whole.last() == last);
    assert(s.filter(pred).push(last) =~= s.filter(pred) + seq![last]);
}

} // verus!
