//! Normalization and transient filter: rescales a raw window to the full
//! scale and flags the windows that must not reach the later stages.

use vstd::prelude::*;
use crate::series::{as_ints, largest, lemma_extremes, lemma_prefix_step, smallest, total};
use crate::window::{FULL_SCALE, SMP_POINTS};

verus! {

/// Largest swing (maximum minus minimum) of a window that is still measured;
/// a wider one is an attack transient.
pub const SMP_THRE: u16 = 2048;

/// The mean of a window, kept exact: the sum of the samples, which stands for
/// the fraction `sum / SMP_POINTS`.
#[derive(Clone, Copy, Debug, PartialEq, Eq, Structural)]
pub struct Mean {
    pub sum: u32,
}

/// Maximum minus minimum of the window.
pub open spec fn swing(s: Seq<u16>) -> int {
    largest(as_ints(s)) - smallest(as_ints(s))
}

/// `x` moved from the range `lo..=hi` to `0..=FULL_SCALE`, rounded down; 0
/// where the range is empty.
pub open spec fn rescaled(x: int, lo: int, hi: int) -> int {
    if hi > lo {
        (x - lo) * FULL_SCALE / (hi - lo)
    } else {
        0
    }
}

/// The window with every sample rescaled from the window's own range.
pub open spec fn normalized(s: Seq<u16>) -> Seq<u16> {
    Seq::new(
        s.len(),
        |k: int| rescaled(s[k] as int, smallest(as_ints(s)), largest(as_ints(s))) as u16,
    )
}

/// The exact mean of the window `s`.
pub open spec fn mean_of(s: Seq<u16>) -> Mean {
    Mean { sum: total(as_ints(s)) as u32 }
}

/// A window is turned away when it swings more than `SMP_THRE`, or not at all.
pub open spec fn rejected(s: Seq<u16>) -> bool {
    swing(s) > SMP_THRE || swing(s) == 0
}

/// A rescaled sample of the range lies within the full scale.
pub proof fn lemma_rescaled_range(x: int, lo: int, hi: int)
    requires
        lo <= x <= hi,
    ensures
        0 <= rescaled(x, lo, hi) <= FULL_SCALE,
{
    if hi > lo {
        let full = FULL_SCALE as int;
        assert(0 <= (x - lo) * full / (hi - lo) <= full) by (nonlinear_arith)
            requires
                0 <= x - lo <= hi - lo,
                0 < hi - lo,
                0 <= full,
        ;
    }
}

/// Normalization loses nothing to the width of a sample, and where the window
/// swings at all it spans the scale: its smallest samples become 0, its
/// largest ones `FULL_SCALE`.
pub proof fn lemma_normalized_spans_scale(s: Seq<u16>)
    requires
        s.len() > 0,
    ensures
        forall|k: int|
            0 <= k < s.len() ==> (#[trigger] normalized(s)[k]) as int == rescaled(
                s[k] as int,
                smallest(as_ints(s)),
                largest(as_ints(s)),
            ) && normalized(s)[k] <= FULL_SCALE,
        swing(s) > 0 ==> forall|k: int|
            0 <= k < s.len() && s[k] == smallest(as_ints(s)) ==> #[trigger] normalized(s)[k] == 0,
        swing(s) > 0 ==> forall|k: int|
            0 <= k < s.len() && s[k] == largest(as_ints(s)) ==> #[trigger] normalized(s)[k]
                == FULL_SCALE,
{
    let lo = smallest(as_ints(s));
    let hi = largest(as_ints(s));
    lemma_extremes(as_ints(s));
    assert forall|k: int| 0 <= k < s.len() implies (#[trigger] normalized(s)[k]) as int
        == rescaled(s[k] as int, lo, hi) && normalized(s)[k] <= FULL_SCALE by {
        assert(as_ints(s)[k] == s[k]);
        lemma_rescaled_range(s[k] as int, lo, hi);
    }
    if hi > lo {
        let full = FULL_SCALE as int;
        assert((hi - lo) * full / (hi - lo) == full) by (nonlinear_arith)
            requires
                hi - lo > 0,
        ;
    }
}

/// Rescales `iarray` into `oarray` and returns the mean of the outcome and
/// whether the window is to be turned away.
pub fn normalization(iarray: &[u16], oarray: &mut [u16]) -> (r: (Mean, bool))
    requires
        iarray@.len() == SMP_POINTS,
        old(oarray)@.len() == SMP_POINTS,
    ensures
        final(oarray)@.len() == SMP_POINTS,
        final(oarray)@ == normalized(iarray@),
        forall|k: int| 0 <= k < SMP_POINTS ==> #[trigger] final(oarray)@[k] <= FULL_SCALE,
        r.0 == mean_of(final(oarray)@),
        r.0.sum == total(as_ints(final(oarray)@)),
        r.1 == rejected(iarray@),
        swing(iarray@) > 0 ==> (r.1 <==> swing(iarray@) > SMP_THRE),
{
    let ghost raw = as_ints(iarray@);
    let mut min: u16 = iarray[0];
    let mut max: u16 = iarray[0];
    proof {
        lemma_prefix_step(raw, 0);
    }
    let mut i: usize = 1;
    while i < SMP_POINTS
        invariant
            iarray@.len() == SMP_POINTS,
            raw == as_ints(iarray@),
            1 <= i <= SMP_POINTS,
            max == largest(raw.take(i as int)),
            min == smallest(raw.take(i as int)),
        decreases SMP_POINTS - i,
    {
        proof {
            lemma_prefix_step(raw, i as int);
        }
        if iarray[i] > max {
            max = iarray[i];
        }
        if iarray[i] < min {
            min = iarray[i];
        }
        i += 1;
    }
    proof {
        assert(raw.take(SMP_POINTS as int) =~= raw);
        lemma_extremes(raw);
    }
    let range: u32 = (max - min) as u32;
    let flg = range > SMP_THRE as u32 || range == 0;

    let ghost goal = normalized(iarray@);
    let mut sum: u32 = 0;
    let mut i: usize = 0;
    while i < SMP_POINTS
        invariant
            iarray@.len() == SMP_POINTS,
            oarray@.len() == SMP_POINTS,
            raw == as_ints(iarray@),
            goal == normalized(iarray@),
            min == smallest(raw),
            max == largest(raw),
            range == max - min,
            forall|k: int| 0 <= k < SMP_POINTS ==> min <= #[trigger] raw[k] <= max,
            0 <= i <= SMP_POINTS,
            forall|k: int| 0 <= k < i ==> #[trigger] oarray@[k] == goal[k],
            forall|k: int| 0 <= k < i ==> #[trigger] oarray@[k] <= FULL_SCALE,
            sum == total(as_ints(goal).take(i as int)),
            sum <= i * FULL_SCALE,
        decreases SMP_POINTS - i,
    {
        let x: u16 = iarray[i];
        proof {
            assert(raw[i as int] == x);
            lemma_rescaled_range(x as int, min as int, max as int);
            lemma_prefix_step(as_ints(goal), i as int);
            assert((x - min) * FULL_SCALE <= 0xffff * 0x3fff) by (nonlinear_arith)
                requires
                    0 <= x - min <= 0xffff,
                    FULL_SCALE == 0x3fff,
            ;
        }
        let tmp: u16 = if range == 0 {
            0
        } else {
            (((x - min) as u32 * FULL_SCALE as u32) / range) as u16
        };
        oarray[i] = tmp;
        sum += tmp as u32;
        i += 1;
    }
    proof {
        assert(as_ints(goal).take(SMP_POINTS as int) =~= as_ints(goal));
        assert(oarray@ =~= goal);
    }
    (Mean { sum }, flg)
}

} // verus!
