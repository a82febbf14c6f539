//! Binarizer: smooths a normalized window with a seven-tap moving average and
//! compares it with the window's mean.

use vstd::prelude::*;
use crate::normalize::{mean_of, Mean};
use crate::series::{as_ints, total};
use crate::window::{SMP_POINTS, TAP_REACH};

verus! {

/// Number of taps of the moving average.
pub const TAPS: u32 = 7;

/// Sum of the seven samples centred on `i`.
pub open spec fn tap_sum(s: Seq<u16>, i: int) -> int {
    s[i - 3] + s[i - 2] + s[i - 1] + s[i] + s[i + 1] + s[i + 2] + s[i + 3]
}

/// Whether the moving average at `i` reaches the mean: `tap_sum / TAPS >=
/// mean.sum / SMP_POINTS`, compared without rounding.
pub open spec fn reaches_mean(s: Seq<u16>, i: int, mean: Mean) -> bool {
    tap_sum(s, i) * SMP_POINTS >= mean.sum * TAPS
}

/// The binary level at `i`: 1 where the moving average reaches the mean.
pub open spec fn level(s: Seq<u16>, i: int, mean: Mean) -> u8 {
    if reaches_mean(s, i, mean) {
        1
    } else {
        0
    }
}

/// Whether the seven taps centred on `i` all lie inside the window.
pub open spec fn is_interior(i: int) -> bool {
    TAP_REACH <= i < SMP_POINTS - TAP_REACH
}

/// The binary signal of `s`: the level at every interior position, and what
/// `before` held at the others.
pub open spec fn binarized(s: Seq<u16>, mean: Mean, before: Seq<u8>) -> Seq<u8> {
    Seq::new(
        SMP_POINTS as nat,
        |i: int|
            if is_interior(i) {
                level(s, i, mean)
            } else {
                before[i]
            },
    )
}

/// Whether `s` holds the two symbols 0 and 1 only.
pub open spec fn is_binary(s: Seq<u8>) -> bool {
    forall|i: int| 0 <= i < s.len() ==> #[trigger] s[i] <= 1
}

/// Writes the binary signal of `iarray` to the interior positions of
/// `barray` and leaves the first and last `TAP_REACH` positions as they were.
pub fn get_barray(iarray: &[u16], avg: Mean, barray: &mut [u8])
    requires
        iarray@.len() == SMP_POINTS,
        old(barray)@.len() == SMP_POINTS,
    ensures
        final(barray)@ == binarized(iarray@, avg, old(barray)@),
        final(barray)@.len() == SMP_POINTS,
{
    let threshold: u64 = avg.sum as u64 * TAPS as u64;
    let mut i: usize = TAP_REACH;
    while i < SMP_POINTS - TAP_REACH
        invariant
            iarray@.len() == SMP_POINTS,
            barray@.len() == SMP_POINTS,
            threshold == avg.sum * TAPS,
            TAP_REACH <= i <= SMP_POINTS - TAP_REACH,
            forall|k: int| TAP_REACH <= k < i ==> #[trigger] barray@[k] == level(iarray@, k, avg),
            forall|k: int|
                0 <= k < SMP_POINTS && !(TAP_REACH <= k < i) ==> #[trigger] barray@[k] == old(
                    barray,
                )@[k],
        decreases SMP_POINTS - i,
    {
        let sum: u32 = iarray[i - 3] as u32 + iarray[i - 2] as u32 + iarray[i - 1] as u32
            + iarray[i] as u32 + iarray[i + 1] as u32 + iarray[i + 2] as u32 + iarray[i + 3] as u32;
        if (sum as u64) * (SMP_POINTS as u64) < threshold {
            barray[i] = 0;
        } else {
            barray[i] = 1;
        }
        i += 1;
    }
}

/// Binarizing over a binary signal gives a binary signal of the length of a
/// window.
pub proof fn lemma_binarized_is_binary(s: Seq<u16>, mean: Mean, before: Seq<u8>)
    requires
        before.len() == SMP_POINTS,
        is_binary(before),
    ensures
        binarized(s, mean, before).len() == SMP_POINTS,
        is_binary(binarized(s, mean, before)),
{
}

/// The sum of a window whose samples all equal `v`.
pub proof fn lemma_flat_total(s: Seq<u16>, v: u16)
    requires
        forall|k: int| 0 <= k < s.len() ==> s[k] == v,
    ensures
        total(as_ints(s)) == s.len() * v,
{
    let p = as_ints(s);
    crate::series::lemma_total_bounds(p, v as int, v as int);
}

/// A window of equal samples, binarized against its own mean, is 1 at every
/// interior position: an average that equals the mean counts as reaching it.
pub proof fn lemma_flat_window_is_high(s: Seq<u16>, v: u16, before: Seq<u8>)
    requires
        s.len() == SMP_POINTS,
        forall|k: int| 0 <= k < s.len() ==> s[k] == v,
    ensures
        forall|i: int| is_interior(i) ==> #[trigger] binarized(s, mean_of(s), before)[i] == 1,
{
    lemma_flat_total(s, v);
    assert(SMP_POINTS * v <= 2048 * 0xffff) by (nonlinear_arith)
        requires
            SMP_POINTS == 2048,
            0 <= v <= 0xffff,
    ;
    assert forall|i: int| is_interior(i) implies #[trigger] binarized(s, mean_of(s), before)[i]
        == 1 by {
        assert(tap_sum(s, i) == 7 * v);
        assert(mean_of(s).sum == SMP_POINTS * v);
        assert((7 * v) * SMP_POINTS == (SMP_POINTS * v) * TAPS) by (nonlinear_arith)
            requires
                TAPS == 7,
        ;
    }
}

} // verus!
