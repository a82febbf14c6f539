//! Hysteresis shaper: inflate passes that grow the runs of one symbol by a
//! sample at each edge, and the fixed sequence of passes that cleans a binary
//! signal before its periods are measured.

use vstd::prelude::*;
use crate::binarize::{is_binary, is_interior};
use crate::window::{SMP_POINTS, TAP_REACH};

verus! {

/// Passes of the first stage, which grows the runs of 1.
pub const OPENING_PASSES: usize = 2;

/// Passes of the second stage, which grows the runs of 0.
pub const ERODING_PASSES: usize = 4;

/// Passes of the last stage, which grows the runs of 1 again.
pub const CLOSING_PASSES: usize = 2;

/// Whether `j` and `j + 1` are both interior and exactly one of them holds
/// `num`.
pub open spec fn is_edge_of(s: Seq<u8>, num: u8, j: int) -> bool {
    is_interior(j) && is_interior(j + 1) && ((s[j] == num) != (s[j + 1] == num))
}

/// Whether a pass for `num` overwrites position `j`: it is interior, does not
/// hold `num`, and an interior neighbour does.
pub open spec fn grows_into(s: Seq<u8>, num: u8, j: int) -> bool {
    is_interior(j) && s[j] != num && ((is_interior(j - 1) && s[j - 1] == num) || (is_interior(
        j + 1,
    ) && s[j + 1] == num))
}

/// The signal after one inflate pass for `num`.
pub open spec fn inflated(s: Seq<u8>, num: u8) -> Seq<u8> {
    Seq::new(
        s.len(),
        |j: int|
            if grows_into(s, num, j) {
                num
            } else {
                s[j]
            },
    )
}

/// The signal after `passes` inflate passes for `num`.
pub open spec fn inflated_times(s: Seq<u8>, num: u8, passes: nat) -> Seq<u8>
    decreases passes,
{
    if passes == 0 {
        s
    } else {
        inflated(inflated_times(s, num, (passes - 1) as nat), num)
    }
}

/// The signal after the whole shaping sequence.
pub open spec fn shaped(s: Seq<u8>) -> Seq<u8> {
    inflated_times(
        inflated_times(inflated_times(s, 1, OPENING_PASSES as nat), 0, ERODING_PASSES as nat),
        1,
        CLOSING_PASSES as nat,
    )
}

/// A signal is settled for `num` when no interior pair is an edge of `num`.
pub open spec fn settled(s: Seq<u8>, num: u8) -> bool {
    forall|j: int| !#[trigger] is_edge_of(s, num, j)
}

/// The pass in progress: the positions before `i` are done, position `i` has
/// seen its left neighbour only, the others are untouched.
spec fn inflating(s: Seq<u8>, num: u8, i: int) -> Seq<u8> {
    Seq::new(
        s.len(),
        |j: int|
            if j < i {
                inflated(s, num)[j]
            } else if j == i && is_interior(j) && s[j] != num && is_interior(j - 1) && s[j - 1]
                == num {
                num
            } else {
                s[j]
            },
    )
}

/// One inflate pass for the symbol `num`, in place.
///
/// Works on a snapshot of the signal: wherever exactly one of two interior
/// neighbours holds `num`, the other one is set to `num`.
pub fn inflate_barray(barray: &mut [u8], num: u8)
    requires
        old(barray)@.len() == SMP_POINTS,
    ensures
        final(barray)@ == inflated(old(barray)@, num),
        final(barray)@.len() == SMP_POINTS,
{
    let mut carray: [u8; SMP_POINTS] = [0;SMP_POINTS];
    let mut i: usize = TAP_REACH;
    while i < SMP_POINTS - TAP_REACH
        invariant
            barray@ == old(barray)@,
            barray@.len() == SMP_POINTS,
            TAP_REACH <= i <= SMP_POINTS - TAP_REACH,
            forall|k: int| TAP_REACH <= k < i ==> #[trigger] carray@[k] == barray@[k],
        decreases SMP_POINTS - i,
    {
        carray[i] = barray[i];
        i += 1;
    }
    let ghost before = barray@;
    let mut i: usize = TAP_REACH;
    while i < SMP_POINTS - TAP_REACH - 1
        invariant
            before == old(barray)@,
            before.len() == SMP_POINTS,
            barray@.len() == SMP_POINTS,
            TAP_REACH <= i <= SMP_POINTS - TAP_REACH - 1,
            forall|k: int| is_interior(k) ==> #[trigger] carray@[k] == before[k],
            barray@ == inflating(before, num, i as int),
        decreases SMP_POINTS - i,
    {
        if carray[i] == num && carray[i + 1] != num {
            barray[i + 1] = num;
        } else if carray[i] != num && carray[i + 1] == num {
            barray[i] = num;
        }
        i += 1;
        proof {
            assert(is_interior(i - 1) && is_interior(i as int));
            assert(barray@ =~= inflating(before, num, i as int));
        }
    }
    proof {
        assert(barray@ =~= inflated(before, num));
    }
}

/// `passes` inflate passes for the symbol `num`, in place.
pub fn inflate_passes(barray: &mut [u8], num: u8, passes: usize)
    requires
        old(barray)@.len() == SMP_POINTS,
    ensures
        final(barray)@ == inflated_times(old(barray)@, num, passes as nat),
        final(barray)@.len() == SMP_POINTS,
{
    let mut done: usize = 0;
    while done < passes
        invariant
            barray@.len() == SMP_POINTS,
            0 <= done <= passes,
            barray@ == inflated_times(old(barray)@, num, done as nat),
        decreases passes - done,
    {
        inflate_barray(barray, num);
        done += 1;
    }
}

/// The shaping sequence, in place: `OPENING_PASSES` passes for 1, then
/// `ERODING_PASSES` passes for 0, then `CLOSING_PASSES` passes for 1.
pub fn shape(barray: &mut [u8])
    requires
        old(barray)@.len() == SMP_POINTS,
    ensures
        final(barray)@ == shaped(old(barray)@),
        final(barray)@.len() == SMP_POINTS,
{
    inflate_passes(barray, 1, OPENING_PASSES);
    inflate_passes(barray, 0, ERODING_PASSES);
    inflate_passes(barray, 1, CLOSING_PASSES);
}

/// Passes for 0 or 1 keep a binary signal binary, and any pass keeps its
/// length.
pub proof fn lemma_passes_keep_binary(s: Seq<u8>, num: u8, passes: nat)
    ensures
        inflated_times(s, num, passes).len() == s.len(),
        is_binary(s) && num <= 1 ==> is_binary(inflated_times(s, num, passes)),
    decreases passes,
{
    if passes > 0 {
        lemma_passes_keep_binary(s, num, (passes - 1) as nat);
    }
}

/// Shaping keeps a binary signal binary, and any signal at its length.
pub proof fn lemma_shaped_is_binary(s: Seq<u8>)
    ensures
        shaped(s).len() == s.len(),
        is_binary(s) ==> is_binary(shaped(s)),
{
    let opened = inflated_times(s, 1, OPENING_PASSES as nat);
    let eroded = inflated_times(opened, 0, ERODING_PASSES as nat);
    lemma_passes_keep_binary(s, 1, OPENING_PASSES as nat);
    lemma_passes_keep_binary(opened, 0, ERODING_PASSES as nat);
    lemma_passes_keep_binary(eroded, 1, CLOSING_PASSES as nat);
}

/// A pass changes nothing exactly on the signals that are settled for its
/// symbol.
pub proof fn lemma_pass_fixes_settled(s: Seq<u8>, num: u8)
    requires
        s.len() == SMP_POINTS,
    ensures
        inflated(s, num) == s <==> settled(s, num),
{
    if settled(s, num) {
        assert forall|j: int| 0 <= j < s.len() implies !grows_into(s, num, j) by {
            assert(!is_edge_of(s, num, j - 1));
            assert(!is_edge_of(s, num, j));
        }
        assert(inflated(s, num) =~= s);
    }
    if inflated(s, num) == s {
        assert forall|j: int| !#[trigger] is_edge_of(s, num, j) by {
            if is_edge_of(s, num, j) {
                if s[j] == num {
                    assert(grows_into(s, num, j + 1));
                    assert(inflated(s, num)[j + 1] == num);
                } else {
                    assert(grows_into(s, num, j));
                    assert(inflated(s, num)[j] == num);
                }
            }
        }
    }
}

/// Two passes for the same symbol, one after the other, hand a signal back
/// unchanged exactly when it is settled for that symbol: a signal with an
/// edge of the symbol grows at that edge, and what has grown stays.
pub proof fn lemma_two_passes_fix_settled(s: Seq<u8>, num: u8)
    requires
        s.len() == SMP_POINTS,
    ensures
        inflated(inflated(s, num), num) == s <==> settled(s, num),
        settled(s, num) ==> inflated_times(s, num, 2) == s,
{
    lemma_pass_fixes_settled(s, num);
    let once = inflated(s, num);
    let twice = inflated(once, num);
    assert(inflated_times(s, num, 2) == twice) by {
        reveal_with_fuel(inflated_times, 3);
    }
    if twice == s && !settled(s, num) {
        // some position has grown in the first pass, and keeps the symbol
        assert(once =~= s || exists|j: int| 0 <= j < s.len() && once[j] != s[j]);
        let j = choose|j: int| 0 <= j < s.len() && once[j] != s[j];
        assert(once[j] == num);
        assert(!grows_into(once, num, j));
        assert(twice[j] == num);
    }
}

} // verus!
