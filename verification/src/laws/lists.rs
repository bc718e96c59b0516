//! Helpers for laws about sequences.

use vstd::prelude::*;

verus! {

/// Filtering a sequence element by element from the end.
pub proof fn filter_from_the_end<A>(s: Seq<A>, pred: spec_fn(A) -> bool)
    ensures
        s.len() == 0 ==> s.filter(pred) == Seq::<A>::empty(),
        s.len() > 0 ==> s.filter(pred) == if pred(s.last()) {
            s.drop_last().filter(pred).push(s.last())
        } else {
            s.drop_last().filter(pred)
        },
{
    reveal(Seq::filter);
    if s.len() == 0 {
        assert(s.filter(pred) =~= Seq::<A>::empty());
    }
}

/// What filtering keeps: the elements of which the predicate holds.
pub proof fn what_a_filter_keeps<A>(s: Seq<A>, pred: spec_fn(A) -> bool)
    ensures
        forall|x: A| #[trigger] s.filter(pred).contains(x) <==> s.contains(x) && pred(x),
        s.filter(pred).len() == 0 <==> forall|i: int| 0 <= i < s.len() ==> !pred(#[trigger] s[i]),
{
    let kept = s.filter(pred);
    assert forall|x: A| #[trigger] s.filter(pred).contains(x) <==> s.contains(x) && pred(x) by {
        if kept.contains(x) {
            s.lemma_filter_contains_rev(pred, x);
            let k = choose|k: int| 0 <= k < kept.len() && kept[k] == x;
            s.lemma_filter_pred(pred, k);
        }
        if s.contains(x) && pred(x) {
            let i = choose|i: int| 0 <= i < s.len() && s[i] == x;
            s.lemma_filter_contains(pred, i);
        }
    }
    if kept.len() == 0 {
        assert forall|i: int| 0 <= i < s.len() implies !pred(#[trigger] s[i]) by {
            if pred(s[i]) {
                s.lemma_filter_contains(pred, i);
            }
        }
    } else {
        assert(kept.contains(kept[0]));
        let i = choose|i: int| 0 <= i < s.len() && s[i] == kept[0];
        assert(pred(s[i]));
    }
}

} // verus!
