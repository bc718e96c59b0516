//! Facts about sequences.

use vstd::prelude::*;

verus! {

/// What a sequence holds with one element more.
pub proof fn contains_after_push<A>(s: Seq<A>, a: A)
    ensures
        forall|x: A| #[trigger] s.push(a).contains(x) <==> s.contains(x) || x == a,
{
    let longer = s.push(a);
    assert forall|x: A| #[trigger] s.push(a).contains(x) <==> s.contains(x) || x == a by {
        if s.contains(x) {
            let k = choose|k: int| 0 <= k < s.len() && s[k] == x;
            assert(longer[k] == x);
        }
        if longer.contains(x) {
            let k = choose|k: int| 0 <= k < longer.len() && longer[k] == x;
            if k < s.len() {
                assert(s[k] == x);
            }
        }
        assert(longer[s.len() as int] == a);
    }
}

/// What a sequence holds that is two others in a row.
pub proof fn contains_in_sum<A>(s: Seq<A>, t: Seq<A>)
    ensures
        forall|x: A| #[trigger] (s + t).contains(x) <==> s.contains(x) || t.contains(x),
{
    let sum = s + t;
    assert forall|x: A| #[trigger] (s + t).contains(x) <==> s.contains(x) || t.contains(x) by {
        if s.contains(x) {
            let k = choose|k: int| 0 <= k < s.len() && s[k] == x;
            assert(sum[k] == x);
        }
        if t.contains(x) {
            let k = choose|k: int| 0 <= k < t.len() && t[k] == x;
            assert(sum[s.len() + k] == x);
        }
        if sum.contains(x) {
            let k = choose|k: int| 0 <= k < sum.len() && sum[k] == x;
            if k < s.len() {
                assert(s[k] == x);
            } else {
                assert(t[k - s.len()] == x);
            }
        }
    }
}

} // verus!
