//! Multi-window accumulator and frequency estimator: gathers the periods of
//! the windows whose periods are steady and, once enough have come in, turns
//! their average into a frequency.

use vstd::prelude::*;

verus! {

/// Accepted windows that make one estimate.
pub const STABLE_WINDOWS: u32 = 20;

/// Largest spread of periods, in samples, with which a window is accepted.
pub const SPREAD_LIMIT: u32 = 100;

/// Nominal sample rate of the converter, in samples per second.
pub const ADC_SAMPLING_RATE: u32 = 83333;

/// What is taken off the nominal rate to make up for the converter's timing.
pub const ADC_SAMPLING_ADJ: u32 = 356;

/// The average period of a stability cycle, kept exact: the periods of its
/// windows summed up, and their number.
#[derive(Clone, Copy, Debug, PartialEq, Eq, Structural)]
pub struct AveragePeriod {
    pub sum: u64,
    pub count: u64,
}

/// What the accumulator made of one window.
#[derive(Clone, Copy, Debug, PartialEq, Eq, Structural)]
pub enum Verdict {
    /// The window held no period; nothing was added.
    NoPeriod,
    /// The periods of the window spread too far; nothing was added.
    Unstable,
    /// The window was added, and more are needed.
    Accumulated,
    /// The window completed a stability cycle; the accumulator starts anew.
    Estimated(AveragePeriod),
}

/// Sum, count and spread of the periods of one window.
pub struct PeriodStats {
    pub sum: u32,
    pub count: u32,
    pub spread: u32,
}

impl AveragePeriod {
    /// The frequency in thousandths of a hertz, rounded down: the corrected
    /// sample rate over the average period `sum / count`.
    pub open spec fn millihertz(self) -> int {
        (ADC_SAMPLING_RATE - ADC_SAMPLING_ADJ) * 1000 * self.count / (self.sum as int)
    }

    /// Whether there is a frequency to speak of: an average over a period or
    /// more, which is not zero, and a result that fits 64 bits.
    pub open spec fn has_frequency(self) -> bool {
        self.count > 0 && self.sum > 0 && self.millihertz() <= u64::MAX
    }

    /// The frequency in thousandths of a hertz, where there is one.
    pub fn frequency_millihertz(&self) -> (f: Option<u64>)
        ensures
            f is Some <==> self.has_frequency(),
            f matches Some(mhz) ==> mhz == self.millihertz(),
    {
        if self.count == 0 || self.sum == 0 {
            return None;
        }
        let rate: u128 = (ADC_SAMPLING_RATE - ADC_SAMPLING_ADJ) as u128 * 1000;
        assert(rate * self.count <= 82977000 * 0xffff_ffff_ffff_ffff) by (nonlinear_arith)
            requires
                rate == 82977000,
                0 <= self.count <= 0xffff_ffff_ffff_ffff,
        ;
        let mhz: u128 = rate * self.count as u128 / self.sum as u128;
        if mhz > u64::MAX as u128 {
            None
        } else {
            Some(mhz as u64)
        }
    }
}

impl PeriodStats {
    /// Whether a window with these periods is added to the accumulator.
    pub open spec fn accepted(self) -> bool {
        self.count > 0 && self.spread <= SPREAD_LIMIT
    }
}

/// The accumulator as a mathematical value.
pub struct AccumulatorView {
    pub sum: int,
    pub count: int,
    pub windows: int,
}

impl AccumulatorView {
    /// The accumulator that has seen nothing.
    pub open spec fn zero() -> AccumulatorView {
        AccumulatorView { sum: 0, count: 0, windows: 0 }
    }

    /// Fewer than `STABLE_WINDOWS` windows are in, each with a period or more
    /// and with sums that fit 32 bits.
    pub open spec fn wf(self) -> bool {
        &&& 0 <= self.windows < STABLE_WINDOWS
        &&& self.windows <= self.count <= self.windows * u32::MAX
        &&& 0 <= self.sum <= self.windows * u32::MAX
    }

    /// The average period that a window with `stats` brings out.
    pub open spec fn average(self, stats: PeriodStats) -> AveragePeriod {
        AveragePeriod { sum: (self.sum + stats.sum) as u64, count: (self.count + stats.count) as u64 }
    }

    /// What the accumulator makes of a window with `stats`.
    pub open spec fn verdict(self, stats: PeriodStats) -> Verdict {
        if stats.count == 0 {
            Verdict::NoPeriod
        } else if stats.spread > SPREAD_LIMIT {
            Verdict::Unstable
        } else if self.windows + 1 == STABLE_WINDOWS {
            Verdict::Estimated(self.average(stats))
        } else {
            Verdict::Accumulated
        }
    }

    /// The accumulator after a window with `stats`.
    pub open spec fn after(self, stats: PeriodStats) -> AccumulatorView {
        if !stats.accepted() {
            self
        } else if self.windows + 1 == STABLE_WINDOWS {
            AccumulatorView::zero()
        } else {
            AccumulatorView {
                sum: self.sum + stats.sum,
                count: self.count + stats.count,
                windows: self.windows + 1,
            }
        }
    }

    /// The accumulator after the windows of `history`, in order.
    pub open spec fn after_all(self, history: Seq<PeriodStats>) -> AccumulatorView
        decreases history.len(),
    {
        if history.len() == 0 {
            self
        } else {
            self.after_all(history.drop_last()).after(history.last())
        }
    }
}

/// The running sums of the current stability cycle.
pub struct FrequencyAccumulator {
    period_sum: u64,
    period_count: u64,
    windows: u32,
}

impl View for FrequencyAccumulator {
    type V = AccumulatorView;

    closed spec fn view(&self) -> AccumulatorView {
        AccumulatorView {
            sum: self.period_sum as int,
            count: self.period_count as int,
            windows: self.windows as int,
        }
    }
}

impl FrequencyAccumulator {
    /// What holds of every accumulator.
    #[verifier::type_invariant]
    pub open spec fn well_formed(self) -> bool {
        self@.wf()
    }

    /// An accumulator that has seen nothing.
    pub fn new() -> (acc: FrequencyAccumulator)
        ensures
            acc@ == AccumulatorView::zero(),
    {
        FrequencyAccumulator { period_sum: 0, period_count: 0, windows: 0 }
    }

    /// Takes the periods of one window: their sum `psum`, their number `pnum`
    /// and their spread `pdiff`.
    ///
    /// A window without a period, or with a spread above `SPREAD_LIMIT`,
    /// leaves the accumulator as it was. Any other window is added; the one
    /// that makes `STABLE_WINDOWS` brings out the average period of the
    /// cycle, which has a period or more to average over, and resets the
    /// accumulator.
    pub fn accept(&mut self, psum: u32, pnum: u32, pdiff: u32) -> (v: Verdict)
        ensures
            final(self)@.wf(),
            v == old(self)@.verdict(PeriodStats { sum: psum, count: pnum, spread: pdiff }),
            final(self)@ == old(self)@.after(PeriodStats { sum: psum, count: pnum, spread: pdiff }),
            pnum == 0 ==> final(self)@ == old(self)@,
            v matches Verdict::Estimated(avg) ==> avg.count >= STABLE_WINDOWS && avg.sum
                == old(self)@.sum + psum && avg.count == old(self)@.count + pnum,
        no_unwind
    {
        proof {
            use_type_invariant(&*self);
        }
        if pnum == 0 {
            return Verdict::NoPeriod;
        }
        if pdiff > SPREAD_LIMIT {
            return Verdict::Unstable;
        }
        let sum: u64 = self.period_sum + psum as u64;
        let count: u64 = self.period_count + pnum as u64;
        if self.windows + 1 == STABLE_WINDOWS {
            *self = FrequencyAccumulator { period_sum: 0, period_count: 0, windows: 0 };
            Verdict::Estimated(AveragePeriod { sum, count })
        } else {
            *self = FrequencyAccumulator {
                period_sum: sum,
                period_count: count,
                windows: self.windows + 1,
            };
            Verdict::Accumulated
        }
    }
}

/// An average over periods of a sample or more has a frequency, which is no
/// higher than the sample rate.
pub proof fn lemma_steady_average_has_frequency(average: AveragePeriod)
    requires
        0 < average.count <= average.sum,
    ensures
        average.has_frequency(),
        average.millihertz() <= (ADC_SAMPLING_RATE - ADC_SAMPLING_ADJ) * 1000,
{
    let rate: int = (ADC_SAMPLING_RATE - ADC_SAMPLING_ADJ) * 1000;
    let count = average.count as int;
    let sum = average.sum as int;
    assert(rate * count / sum <= rate) by (nonlinear_arith)
        requires
            0 < count <= sum,
            0 <= rate,
    ;
}

/// Sum of the period sums of `history`.
pub open spec fn sum_over(history: Seq<PeriodStats>) -> int
    decreases history.len(),
{
    if history.len() == 0 {
        0
    } else {
        sum_over(history.drop_last()) + history.last().sum
    }
}

/// Sum of the period counts of `history`.
pub open spec fn count_over(history: Seq<PeriodStats>) -> int
    decreases history.len(),
{
    if history.len() == 0 {
        0
    } else {
        count_over(history.drop_last()) + history.last().count
    }
}

/// Whatever windows come in, and in whatever order, fewer than
/// `STABLE_WINDOWS` are gathered at any time, each with a period or more.
pub proof fn lemma_history_keeps_wf(history: Seq<PeriodStats>)
    ensures
        AccumulatorView::zero().after_all(history).wf(),
    decreases history.len(),
{
    if history.len() > 0 {
        lemma_history_keeps_wf(history.drop_last());
        let before = AccumulatorView::zero().after_all(history.drop_last());
        assert((before.windows + 1) * u32::MAX == before.windows * u32::MAX + u32::MAX)
            by (nonlinear_arith);
    }
}

/// A window without a period is never added, and an estimate always has a
/// period or more to average over: no average divides by zero.
pub proof fn lemma_zero_count_guard(acc: AccumulatorView, stats: PeriodStats)
    requires
        acc.wf(),
    ensures
        stats.count == 0 ==> acc.after(stats) == acc && acc.verdict(stats) == Verdict::NoPeriod,
        acc.verdict(stats) matches Verdict::Estimated(avg) ==> avg.count >= STABLE_WINDOWS,
{
    assert(acc.windows * u32::MAX <= 19 * u32::MAX) by (nonlinear_arith)
        requires
            0 <= acc.windows <= 19,
    ;
}

/// While fewer than `STABLE_WINDOWS` accepted windows have come in, the
/// accumulator holds their sums and has brought out nothing.
pub proof fn lemma_accepted_windows_add_up(history: Seq<PeriodStats>)
    requires
        history.len() < STABLE_WINDOWS,
        forall|k: int| 0 <= k < history.len() ==> (#[trigger] history[k]).accepted(),
    ensures
        AccumulatorView::zero().after_all(history) == (AccumulatorView {
            sum: sum_over(history),
            count: count_over(history),
            windows: history.len() as int,
        }),
        forall|k: int|
            0 <= k < history.len() ==> AccumulatorView::zero().after_all(
                #[trigger] history.take(k),
            ).verdict(history[k]) == Verdict::Accumulated,
    decreases history.len(),
{
    if history.len() > 0 {
        let shorter = history.drop_last();
        lemma_accepted_windows_add_up(shorter);
        assert forall|k: int| 0 <= k < history.len() implies AccumulatorView::zero().after_all(
            #[trigger] history.take(k),
        ).verdict(history[k]) == Verdict::Accumulated by {
            if k < shorter.len() {
                assert(history.take(k) =~= shorter.take(k));
                assert(history[k] == shorter[k]);
            } else {
                assert(history.take(k) =~= shorter);
            }
        }
    }
}

/// A stability cycle: of `STABLE_WINDOWS` accepted windows the last one, and
/// no earlier one, brings out an estimate, which averages over all of them;
/// the accumulator is back at zero, so that the window after them starts a
/// cycle of its own.
pub proof fn lemma_stability_cycle(history: Seq<PeriodStats>, next: PeriodStats)
    requires
        history.len() == STABLE_WINDOWS,
        forall|k: int| 0 <= k < history.len() ==> (#[trigger] history[k]).accepted(),
    ensures
        forall|k: int|
            0 <= k < STABLE_WINDOWS - 1 ==> AccumulatorView::zero().after_all(
                #[trigger] history.take(k),
            ).verdict(history[k]) == Verdict::Accumulated,
        AccumulatorView::zero().after_all(history.drop_last()).verdict(
            history.last(),
        ) matches Verdict::Estimated(avg) && avg.sum == sum_over(history) && avg.count
            == count_over(history),
        AccumulatorView::zero().after_all(history) == AccumulatorView::zero(),
        AccumulatorView::zero().after_all(history.push(next)) == AccumulatorView::zero().after(
            next,
        ),
{
    let shorter = history.drop_last();
    lemma_accepted_windows_add_up(shorter);
    assert forall|k: int| 0 <= k < STABLE_WINDOWS - 1 implies AccumulatorView::zero().after_all(
        #[trigger] history.take(k),
    ).verdict(history[k]) == Verdict::Accumulated by {
        assert(history.take(k) =~= shorter.take(k));
        assert(history[k] == shorter[k]);
    }
    lemma_count_bounds(shorter);
    assert(AccumulatorView::zero().after_all(history) == AccumulatorView::zero());
    let longer = history.push(next);
    assert(longer.drop_last() =~= history);
    assert(longer.last() == next);
}

/// The sums over a history lie between nothing and 32 bits for each window.
proof fn lemma_count_bounds(history: Seq<PeriodStats>)
    ensures
        0 <= sum_over(history) <= history.len() * u32::MAX,
        0 <= count_over(history) <= history.len() * u32::MAX,
    decreases history.len(),
{
    if history.len() > 0 {
        let shorter = history.drop_last();
        lemma_count_bounds(shorter);
        assert(history.len() * u32::MAX == shorter.len() * u32::MAX + u32::MAX)
            by (nonlinear_arith)
            requires
                history.len() == shorter.len() + 1,
        ;
    }
}

} // verus!
