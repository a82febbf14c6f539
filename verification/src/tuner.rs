//! The consumer's side of the tuner: runs one full window through every stage
//! and hands the outcome to the accumulator.

use vstd::prelude::*;
use crate::accumulator::{
    lemma_steady_average_has_frequency, AccumulatorView, FrequencyAccumulator, PeriodStats, Verdict,
    SPREAD_LIMIT,
};
use crate::binarize::{binarized, get_barray, is_binary, lemma_binarized_is_binary};
use crate::buffer::BufferPair;
use crate::normalize::{mean_of, normalization, normalized, rejected};
use crate::periods::{
    get_rise_edge, lemma_periods_positive, window_periods, window_spread, NO_PERIOD_SPREAD,
};
use crate::series::total;
use crate::shaper::{lemma_shaped_is_binary, shape, shaped};
use crate::window::SMP_POINTS;

verus! {

/// What the tuner made of one window.
#[derive(Clone, Copy, Debug, PartialEq, Eq, Structural)]
pub enum WindowOutcome {
    /// The window was turned away after normalization; no later stage saw it.
    Rejected,
    /// The window was measured, and the accumulator gave its verdict.
    Measured(Verdict),
}

impl WindowOutcome {
    /// Whether this outcome ends the turn of the consumer's loop at once, so
    /// that what else the loop does (the scan of the buttons) waits for the
    /// next turn: a window that was turned away does.
    pub fn ends_turn(&self) -> (ends: bool)
        ensures
            ends == (*self == WindowOutcome::Rejected),
    {
        match self {
            WindowOutcome::Rejected => true,
            WindowOutcome::Measured(_) => false,
        }
    }
}

/// A binary signal of zeros.
pub open spec fn blank_signal() -> Seq<u8> {
    Seq::new(SMP_POINTS as nat, |i: int| 0u8)
}

/// The shaped binary signal of the raw window `s`.
pub open spec fn signal_of(s: Seq<u16>) -> Seq<u8> {
    shaped(binarized(normalized(s), mean_of(normalized(s)), blank_signal()))
}

/// The shaped signal of a window is a binary signal of the window's length.
pub proof fn lemma_signal_is_binary(s: Seq<u16>)
    ensures
        signal_of(s).len() == SMP_POINTS,
        is_binary(signal_of(s)),
{
    let raw = binarized(normalized(s), mean_of(normalized(s)), blank_signal());
    lemma_binarized_is_binary(normalized(s), mean_of(normalized(s)), blank_signal());
    lemma_shaped_is_binary(raw);
}

/// The periods of the raw window `s`.
pub open spec fn periods_of(s: Seq<u16>) -> Seq<int> {
    window_periods(signal_of(s))
}

/// Sum, count and spread of the periods of the raw window `s`.
pub open spec fn stats_of(s: Seq<u16>) -> PeriodStats {
    PeriodStats {
        sum: total(periods_of(s)) as u32,
        count: periods_of(s).len() as u32,
        spread: window_spread(periods_of(s)) as u32,
    }
}

/// Runs a raw window through normalization, the binarizer, the shaper and the
/// period extractor. `None` where the window is turned away; else the sum, the
/// count and the spread of its periods, the spread of a window without a
/// period being `NO_PERIOD_SPREAD`.
pub fn measure_window(window: &[u16]) -> (r: Option<(u32, u32, u32)>)
    requires
        window@.len() == SMP_POINTS,
    ensures
        r is None <==> rejected(window@),
        r matches Some(stats) ==> stats.0 == total(periods_of(window@)) && stats.1 == periods_of(
            window@,
        ).len() && stats.2 == window_spread(periods_of(window@)) && stats_of(window@) == (PeriodStats {
            sum: stats.0,
            count: stats.1,
            spread: stats.2,
        }),
        r matches Some(stats) ==> (stats.1 == 0 ==> stats.2 == NO_PERIOD_SPREAD && stats.2
            > SPREAD_LIMIT),
{
    let mut oarray: [u16; SMP_POINTS] = [0;SMP_POINTS];
    let mut barray: [u8; SMP_POINTS] = [0;SMP_POINTS];
    assert(barray@ =~= blank_signal());
    let (avg, flg) = normalization(window, &mut oarray);
    if flg {
        return None;
    }
    get_barray(&oarray, avg, &mut barray);
    shape(&mut barray);
    let (psum, pnum, pdiff) = get_rise_edge(&barray);
    Some((psum, pnum, pdiff))
}

/// The tuner's state between windows.
pub struct Tuner {
    accumulator: FrequencyAccumulator,
}

impl View for Tuner {
    type V = AccumulatorView;

    closed spec fn view(&self) -> AccumulatorView {
        self.accumulator@
    }
}

/// What the tuner makes of the raw window `s` with the accumulator at `acc`.
pub open spec fn outcome_of(acc: AccumulatorView, s: Seq<u16>) -> WindowOutcome {
    if rejected(s) {
        WindowOutcome::Rejected
    } else {
        WindowOutcome::Measured(acc.verdict(stats_of(s)))
    }
}

/// The accumulator after the raw window `s`.
pub open spec fn accumulated(acc: AccumulatorView, s: Seq<u16>) -> AccumulatorView {
    if rejected(s) {
        acc
    } else {
        acc.after(stats_of(s))
    }
}

impl Tuner {
    /// What holds of every tuner: the periods gathered are no fewer in sum
    /// than in number, every one of them being a sample or more.
    #[verifier::type_invariant]
    pub open spec fn periods_positive(self) -> bool {
        self@.count <= self@.sum
    }

    /// A tuner that has seen no window.
    pub fn new() -> (tuner: Tuner)
        ensures
            tuner@ == AccumulatorView::zero(),
    {
        Tuner { accumulator: FrequencyAccumulator::new() }
    }

    /// Measures one full window and accumulates its periods. A window that
    /// is turned away leaves the accumulator untouched.
    pub fn process_window(&mut self, window: &[u16]) -> (outcome: WindowOutcome)
        requires
            window@.len() == SMP_POINTS,
        ensures
            outcome == outcome_of(old(self)@, window@),
            final(self)@ == accumulated(old(self)@, window@),
            final(self)@.wf(),
            outcome matches WindowOutcome::Measured(Verdict::Estimated(average))
                ==> average.has_frequency(),
    {
        proof {
            use_type_invariant(&*self);
            use_type_invariant(&self.accumulator);
            lemma_periods_positive(signal_of(window@));
        }
        match measure_window(window) {
            None => WindowOutcome::Rejected,
            Some((psum, pnum, pdiff)) => {
                let verdict = self.accumulator.accept(psum, pnum, pdiff);
                proof {
                    if let Verdict::Estimated(average) = verdict {
                        lemma_steady_average_has_frequency(average);
                    }
                }
                WindowOutcome::Measured(verdict)
            },
        }
    }

    /// One turn of the consumer's loop: where the processing buffer holds a
    /// full window, processes it and clears the buffer, whatever came of the
    /// window; else does nothing.
    pub fn poll(&mut self, buffers: &mut BufferPair) -> (outcome: Option<WindowOutcome>)
        ensures
            final(self)@.wf(),
            final(buffers)@.wf(),
            old(buffers)@.processing().len() == SMP_POINTS ==> outcome == Some(
                outcome_of(old(self)@, old(buffers)@.processing()),
            ),
            old(buffers)@.processing().len() == SMP_POINTS ==> final(self)@ == accumulated(
                old(self)@,
                old(buffers)@.processing(),
            ),
            old(buffers)@.processing().len() == SMP_POINTS ==> final(buffers)@ == old(
                buffers,
            )@.cleared(),
            old(buffers)@.processing().len() != SMP_POINTS ==> outcome is None,
            old(buffers)@.processing().len() != SMP_POINTS ==> final(self)@ == old(self)@,
            old(buffers)@.processing().len() != SMP_POINTS ==> final(buffers)@ == old(buffers)@,
            outcome matches Some(WindowOutcome::Measured(Verdict::Estimated(average)))
                ==> average.has_frequency(),
    {
        if buffers.processing_is_full() {
            let outcome = self.process_window(buffers.processing_window());
            buffers.clear_processing();
            Some(outcome)
        } else {
            proof {
                use_type_invariant(&self.accumulator);
                use_type_invariant(&*buffers);
            }
            None
        }
    }
}

} // verus!
