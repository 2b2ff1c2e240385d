//! Reorderings of a sequence, and what they leave unchanged.

use vstd::prelude::*;
use vstd::seq_lib::{to_multiset_build, to_multiset_insert};

verus! {

/// Whether `p` lists each of the indices `0, 1, ..., n - 1` exactly once.
pub open spec fn is_permutation(p: Seq<int>, n: nat) -> bool {
    &&& p.len() == n
    &&& forall|i: int| 0 <= i < n ==> 0 <= #[trigger] p[i] < n
    &&& forall|i: int, j: int| 0 <= i < j < n ==> #[trigger] p[i] != #[trigger] p[j]
}

/// The sequence `s` in the order that `p` gives: entry `i` of the result is
/// entry `p[i]` of `s`.
pub open spec fn permuted<A>(s: Seq<A>, p: Seq<int>) -> Seq<A> {
    Seq::new(p.len(), |i: int| s[p[i]])
}

/// The permutation of one index fewer that is left of `p` when its last
/// entry is struck out and the indices above that entry move down by one.
spec fn without_last(p: Seq<int>) -> Seq<int> {
    Seq::new(
        (p.len() - 1) as nat,
        |i: int|
            if p[i] < p.last() {
                p[i]
            } else {
                p[i] - 1
            },
    )
}

/// Striking out the last entry of a permutation leaves a permutation, and
/// reordering by it is reordering by the whole and then dropping the last
/// entry.
proof fn lemma_without_last<A>(s: Seq<A>, p: Seq<int>)
    requires
        s.len() > 0,
        is_permutation(p, s.len()),
    ensures
        is_permutation(without_last(p), (s.len() - 1) as nat),
        permuted(s.remove(p.last()), without_last(p)) == permuted(s, p).drop_last(),
{
    let n = s.len() as int;
    let j = p.last();
    let q = without_last(p);
    assert forall|i: int| 0 <= i < n - 1 implies 0 <= #[trigger] q[i] < n - 1 by {
        assert(p[i] != p[n - 1]);
    }
    assert forall|i: int, k: int| 0 <= i < k < n - 1 implies #[trigger] q[i] != #[trigger] q[k] by {
        assert(p[i] != p[n - 1]);
        assert(p[k] != p[n - 1]);
    }
    assert forall|i: int| 0 <= i < n - 1 implies #[trigger] permuted(s.remove(j), q)[i] == permuted(
        s,
        p,
    ).drop_last()[i] by {
        assert(p[i] != p[n - 1]);
    }
    assert(permuted(s.remove(j), q) =~= permuted(s, p).drop_last());
}

/// A reordered sequence holds the same entries, each as often as before.
pub proof fn lemma_permuted_multiset<A>(s: Seq<A>, p: Seq<int>)
    requires
        is_permutation(p, s.len()),
    ensures
        permuted(s, p).to_multiset() == s.to_multiset(),
    decreases s.len(),
{
    let t = permuted(s, p);
    if s.len() == 0 {
        assert(t =~= s);
    } else {
        let j = p.last();
        lemma_without_last(s, p);
        lemma_permuted_multiset(s.remove(j), without_last(p));
        assert(t =~= t.drop_last().push(s[j]));
        to_multiset_build(t.drop_last(), s[j]);
        assert(s =~= s.remove(j).insert(j, s[j]));
        to_multiset_insert(s.remove(j), j, s[j]);
    }
}

} // verus!
