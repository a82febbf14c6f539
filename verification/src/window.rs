//! Sizes and levels shared by every stage that works on a sample window.

use vstd::prelude::*;

verus! {

/// Number of samples in one window.
pub const SMP_POINTS: usize = 2048;

/// Largest value of a normalized sample.
pub const FULL_SCALE: u16 = 0x3fff;

/// Number of positions at each end of a window that the seven-tap moving
/// average cannot reach.
pub const TAP_REACH: usize = 3;

} // verus!
