//! Sums and extremes of integer sequences, the vocabulary in which the
//! stages state what they compute.

use vstd::prelude::*;

verus! {

/// The samples of `s` as mathematical integers.
pub open spec fn as_ints(s: Seq<u16>) -> Seq<int> {
    Seq::new(s.len(), |k: int| s[k] as int)
}

/// Sum of the entries of `p`.
pub open spec fn total(p: Seq<int>) -> int
    decreases p.len(),
{
    if p.len() == 0 {
        0
    } else {
        total(p.drop_last()) + p.last()
    }
}

/// Largest entry of `p`; 0 for the empty sequence.
pub open spec fn largest(p: Seq<int>) -> int
    decreases p.len(),
{
    if p.len() == 0 {
        0
    } else if p.len() == 1 {
        p[0]
    } else if p.last() > largest(p.drop_last()) {
        p.last()
    } else {
        largest(p.drop_last())
    }
}

/// Smallest entry of `p`; 0 for the empty sequence.
pub open spec fn smallest(p: Seq<int>) -> int
    decreases p.len(),
{
    if p.len() == 0 {
        0
    } else if p.len() == 1 {
        p[0]
    } else if p.last() < smallest(p.drop_last()) {
        p.last()
    } else {
        smallest(p.drop_last())
    }
}

/// `largest` and `smallest` bound every entry and are themselves entries.
pub proof fn lemma_extremes(p: Seq<int>)
    requires
        p.len() > 0,
    ensures
        forall|k: int| 0 <= k < p.len() ==> smallest(p) <= #[trigger] p[k] <= largest(p),
        exists|k: int| 0 <= k < p.len() && p[k] == largest(p),
        exists|k: int| 0 <= k < p.len() && p[k] == smallest(p),
    decreases p.len(),
{
    if p.len() == 1 {
        assert(p[0] == largest(p));
        assert(p[0] == smallest(p));
    } else {
        let q = p.drop_last();
        lemma_extremes(q);
        assert forall|k: int| 0 <= k < p.len() implies smallest(p) <= #[trigger] p[k] <= largest(
            p,
        ) by {
            if k < q.len() {
                assert(q[k] == p[k]);
            }
        }
        let hi = choose|k: int| 0 <= k < q.len() && q[k] == largest(q);
        let lo = choose|k: int| 0 <= k < q.len() && q[k] == smallest(q);
        assert(p[hi] == q[hi] && p[lo] == q[lo]);
        let last = p.len() - 1;
        assert(p[last] == p.last());
        assert(p[hi] == largest(p) || p[last] == largest(p));
        assert(p[lo] == smallest(p) || p[last] == smallest(p));
    }
}

/// A sum lies between the count times the lower and the upper bound of its
/// entries.
pub proof fn lemma_total_bounds(p: Seq<int>, lo: int, hi: int)
    requires
        forall|k: int| 0 <= k < p.len() ==> lo <= #[trigger] p[k] <= hi,
    ensures
        p.len() * lo <= total(p) <= p.len() * hi,
    decreases p.len(),
{
    if p.len() > 0 {
        let q = p.drop_last();
        assert forall|k: int| 0 <= k < q.len() implies lo <= #[trigger] q[k] <= hi by {
            assert(q[k] == p[k]);
        }
        lemma_total_bounds(q, lo, hi);
        assert(p.len() * lo == q.len() * lo + lo) by (nonlinear_arith)
            requires
                p.len() == q.len() + 1,
        ;
        assert(p.len() * hi == q.len() * hi + hi) by (nonlinear_arith)
            requires
                p.len() == q.len() + 1,
        ;
    }
}

/// What one more entry adds to the sum and the extremes of a prefix.
pub proof fn lemma_prefix_step(p: Seq<int>, k: int)
    requires
        0 <= k < p.len(),
    ensures
        total(p.take(k + 1)) == total(p.take(k)) + p[k],
        k == 0 ==> largest(p.take(k + 1)) == p[k] && smallest(p.take(k + 1)) == p[k],
        k > 0 ==> largest(p.take(k + 1)) == (if p[k] > largest(p.take(k)) {
            p[k]
        } else {
            largest(p.take(k))
        }),
        k > 0 ==> smallest(p.take(k + 1)) == (if p[k] < smallest(p.take(k)) {
            p[k]
        } else {
            smallest(p.take(k))
        }),
{
    assert(p.take(k + 1).drop_last() =~= p.take(k));
    assert(p.take(k + 1).last() == p[k]);
}

} // verus!
