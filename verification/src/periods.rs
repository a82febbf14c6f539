//! Period extraction: the distances between the rising edges of a shaped
//! binary signal, and their sum, count and spread.

use vstd::prelude::*;
use crate::accumulator::SPREAD_LIMIT;
use crate::series::{as_ints, largest, lemma_prefix_step, smallest, total};
use crate::window::SMP_POINTS;

verus! {

/// Most periods that one window contributes; later ones are dropped.
pub const MAX_PERIODS: usize = 50;

/// First index at which a rising edge is looked for.
pub const SCAN_START: usize = 3;

/// One past the last index at which a rising edge is looked for.
pub const SCAN_END: usize = SMP_POINTS - 5;

/// Where the search for the smallest period starts. No period reaches it: a
/// period is shorter than the window.
pub const SEARCH_CEILING: u16 = 10000;

/// The spread of a window without a period. The search for the extremes then
/// ends where it started, at 0 for the largest and at `SEARCH_CEILING` for
/// the smallest period, and their difference wraps around in 16 bits. It lies
/// above every spread with which a window is accepted.
pub const NO_PERIOD_SPREAD: u32 = 55536;

/// A rising edge sits at `i` when the signal is 0 there and 1 right after.
pub open spec fn is_rising_edge(s: Seq<u8>, i: int) -> bool {
    s[i] == 0 && s[i + 1] == 1
}

/// The indices in `SCAN_START..end` that hold a rising edge, ascending.
pub open spec fn rising_edges(s: Seq<u8>, end: int) -> Seq<int>
    decreases end,
{
    if end <= SCAN_START {
        Seq::empty()
    } else if is_rising_edge(s, end - 1) {
        rising_edges(s, end - 1).push(end - 1)
    } else {
        rising_edges(s, end - 1)
    }
}

/// The distance from each edge to the next one.
pub open spec fn edge_distances(edges: Seq<int>) -> Seq<int> {
    if edges.len() == 0 {
        Seq::empty()
    } else {
        Seq::new((edges.len() - 1) as nat, |k: int| edges[k + 1] - edges[k])
    }
}

/// The first `MAX_PERIODS` entries of `d`, or all of `d` if it has fewer.
pub open spec fn first_periods(d: Seq<int>) -> Seq<int> {
    if d.len() <= MAX_PERIODS {
        d
    } else {
        d.subrange(0, MAX_PERIODS as int)
    }
}

/// The periods that the scan of `s` up to `end` has collected.
pub open spec fn periods_upto(s: Seq<u8>, end: int) -> Seq<int> {
    first_periods(edge_distances(rising_edges(s, end)))
}

/// The periods of one window.
pub open spec fn window_periods(s: Seq<u8>) -> Seq<int> {
    periods_upto(s, SCAN_END as int)
}

/// The spread of the periods `p`: the largest minus the smallest, and
/// `NO_PERIOD_SPREAD` where there is none.
pub open spec fn window_spread(p: Seq<int>) -> int {
    if p.len() == 0 {
        NO_PERIOD_SPREAD as int
    } else {
        largest(p) - smallest(p)
    }
}

/// Whether every entry of `e` lies in `SCAN_START..end` and the entries
/// ascend strictly.
pub open spec fn ascends_within(e: Seq<int>, end: int) -> bool {
    &&& forall|k: int| 0 <= k < e.len() ==> SCAN_START <= #[trigger] e[k] < end
    &&& forall|j: int, k: int| 0 <= j < k < e.len() ==> #[trigger] e[j] < #[trigger] e[k]
}

/// The edges found before `end` lie in `SCAN_START..end` and ascend strictly.
pub proof fn lemma_edges_ascend(s: Seq<u8>, end: int)
    ensures
        ascends_within(rising_edges(s, end), end),
    decreases end,
{
    if end > SCAN_START {
        lemma_edges_ascend(s, end - 1);
        let before = rising_edges(s, end - 1);
        let e = rising_edges(s, end);
        if is_rising_edge(s, end - 1) {
            assert(e == before.push(end - 1));
            assert forall|k: int| 0 <= k < e.len() implies SCAN_START <= #[trigger] e[k]
                < end by {
                if k < before.len() {
                    assert(e[k] == before[k]);
                }
            }
            assert forall|j: int, k: int| 0 <= j < k < e.len() implies #[trigger] e[j]
                < #[trigger] e[k] by {
                assert(e[j] == before[j]);
                if k < before.len() {
                    assert(e[k] == before[k]);
                }
            }
        } else {
            assert(e == before);
        }
    }
}

/// Whether `edges` lists, in ascending order, the indices in
/// `SCAN_START..end` at which `s` has a rising edge.
pub open spec fn lists_edges(s: Seq<u8>, end: int, edges: Seq<int>) -> bool {
    &&& ascends_within(edges, end)
    &&& forall|i: int|
        #![trigger edges.contains(i)]
        edges.contains(i) <==> SCAN_START <= i < end && is_rising_edge(s, i)
}

/// Two rising edges never sit side by side, so that every period of a window
/// is 2 samples or more and shorter than the window; a window with a period
/// has a sum that is no smaller than its count.
pub proof fn lemma_periods_positive(s: Seq<u8>)
    ensures
        forall|k: int|
            0 <= k < window_periods(s).len() ==> 2 <= #[trigger] window_periods(s)[k] < SMP_POINTS,
        2 * window_periods(s).len() <= total(window_periods(s)),
        window_periods(s).len() <= MAX_PERIODS,
{
    let e = rising_edges(s, SCAN_END as int);
    let d = edge_distances(e);
    let p = window_periods(s);
    lemma_scan_lists_edges(s, SCAN_END as int);
    assert forall|k: int| 0 <= k < d.len() implies 2 <= #[trigger] d[k] < SMP_POINTS by {
        assert(e[k] < e[k + 1]);
        assert(e.contains(e[k]) && e.contains(e[k + 1]));
        assert(is_rising_edge(s, e[k]) && is_rising_edge(s, e[k + 1]));
    }
    assert forall|k: int| 0 <= k < p.len() implies 2 <= #[trigger] p[k] < SMP_POINTS by {
        assert(p[k] == d[k]);
    }
    crate::series::lemma_total_bounds(p, 2, SMP_POINTS as int);
}

/// The scan lists the rising edges: the edges found before `end` are the
/// indices in `SCAN_START..end` that hold a rising edge, all of them and no
/// other, in ascending order.
pub proof fn lemma_scan_lists_edges(s: Seq<u8>, end: int)
    ensures
        lists_edges(s, end, rising_edges(s, end)),
    decreases end,
{
    let e = rising_edges(s, end);
    lemma_edges_ascend(s, end);
    if end > SCAN_START {
        lemma_scan_lists_edges(s, end - 1);
        let before = rising_edges(s, end - 1);
        assert forall|i: int| #![trigger e.contains(i)] e.contains(i) <==> SCAN_START <= i < end
            && is_rising_edge(s, i) by {
            let known = before.contains(i);
            if is_rising_edge(s, end - 1) {
                assert(e == before.push(end - 1));
                assert(e[before.len() as int] == end - 1);
                if known {
                    let k = choose|k: int| 0 <= k < before.len() && before[k] == i;
                    assert(e[k] == i);
                }
                if e.contains(i) {
                    let k = choose|k: int| 0 <= k < e.len() && e[k] == i;
                    if k < before.len() {
                        assert(before[k] == i);
                    }
                }
            }
        }
    }
}

/// The scan finds the rising edges of a signal, whatever they are: a list of
/// them in ascending order is the list that the scan makes.
pub proof fn lemma_edges_unique(s: Seq<u8>, end: int, edges: Seq<int>)
    requires
        lists_edges(s, end, edges),
    ensures
        rising_edges(s, end) == edges,
    decreases end,
{
    if end <= SCAN_START {
        if edges.len() > 0 {
            assert(SCAN_START <= edges[0] < end);
        }
        assert(edges =~= Seq::<int>::empty());
    } else if is_rising_edge(s, end - 1) {
        assert(edges.contains(end - 1));
        let at = choose|k: int| 0 <= k < edges.len() && edges[k] == end - 1;
        if at < edges.len() - 1 {
            assert(edges[at] < edges[at + 1] < end);
        }
        let shorter = edges.drop_last();
        assert forall|i: int| #![trigger shorter.contains(i)] shorter.contains(i) <==> SCAN_START
            <= i < end - 1 && is_rising_edge(s, i) by {
            if shorter.contains(i) {
                let k = choose|k: int| 0 <= k < shorter.len() && shorter[k] == i;
                assert(edges[k] == i && edges[k] < edges[at]);
                assert(edges.contains(i));
            }
            if SCAN_START <= i < end - 1 && is_rising_edge(s, i) {
                assert(edges.contains(i));
                let k = choose|k: int| 0 <= k < edges.len() && edges[k] == i;
                assert(shorter[k] == i);
            }
        }
        assert forall|k: int| 0 <= k < shorter.len() implies SCAN_START <= #[trigger] shorter[k]
            < end - 1 by {
            assert(shorter[k] == edges[k] && edges[k] < edges[at]);
        }
        assert forall|j: int, k: int| 0 <= j < k < shorter.len() implies #[trigger] shorter[j]
            < #[trigger] shorter[k] by {
            assert(shorter[j] == edges[j] && shorter[k] == edges[k]);
        }
        lemma_edges_unique(s, end - 1, shorter);
        assert(shorter.push(end - 1) =~= edges);
    } else {
        assert forall|k: int| 0 <= k < edges.len() implies SCAN_START <= #[trigger] edges[k] < end
            - 1 by {
            assert(edges.contains(edges[k]));
        }
        lemma_edges_unique(s, end - 1, edges);
    }
}

/// The periods of a window are the distances between its rising edges: where
/// `edges` lists the rising edges of `s`, the periods are the first
/// `MAX_PERIODS` distances from one entry of `edges` to the next.
pub proof fn lemma_periods_of_edges(s: Seq<u8>, edges: Seq<int>)
    requires
        lists_edges(s, SCAN_END as int, edges),
    ensures
        window_periods(s) == first_periods(edge_distances(edges)),
{
    lemma_edges_unique(s, SCAN_END as int, edges);
}

/// What one more scanned index adds to the collected periods.
proof fn lemma_scan_step(s: Seq<u8>, i: int)
    requires
        SCAN_START <= i,
    ensures
        !is_rising_edge(s, i) ==> periods_upto(s, i + 1) == periods_upto(s, i),
        is_rising_edge(s, i) && rising_edges(s, i).len() == 0 ==> periods_upto(s, i + 1)
            == Seq::<int>::empty() && periods_upto(s, i) == Seq::<int>::empty(),
        is_rising_edge(s, i) && rising_edges(s, i).len() > 0 && periods_upto(s, i).len()
            < MAX_PERIODS ==> periods_upto(s, i + 1) == periods_upto(s, i).push(
            i - rising_edges(s, i).last(),
        ),
        is_rising_edge(s, i) && rising_edges(s, i).len() > 0 && periods_upto(s, i).len()
            >= MAX_PERIODS ==> periods_upto(s, i + 1) == periods_upto(s, i),
{
    let e = rising_edges(s, i);
    let e1 = rising_edges(s, i + 1);
    if is_rising_edge(s, i) {
        assert(e1 == e.push(i));
        let d = edge_distances(e);
        let d1 = edge_distances(e1);
        if e.len() == 0 {
            assert(d1 =~= Seq::<int>::empty());
        } else {
            assert(d1 =~= d.push(i - e.last()));
            if d.len() < MAX_PERIODS {
                assert(first_periods(d1) =~= first_periods(d).push(i - e.last()));
            } else {
                assert(first_periods(d1) =~= first_periods(d));
            }
        }
    } else {
        assert(e1 == e);
    }
}

/// The periods collected from one window: a `heapless::Vec` of
/// `MAX_PERIODS` entries.
///
/// The verifier does not look inside. It knows a list by `period_list_items`
/// and by the contracts of the methods below, which say what the source of
/// `heapless` shows and are assumed, not proved.
#[verifier::external_body]
pub struct PeriodList {
    items: heapless::Vec<u16, heapless::consts::U50>,
}

/// The periods that a list holds, in the order in which they were found.
pub uninterp spec fn period_list_items(l: PeriodList) -> Seq<u16>;

impl PeriodList {
    /// Calls `heapless::Vec::new`. Assumed: the new list holds nothing.
    #[verifier::external_body]
    pub(crate) fn new() -> (l: PeriodList)
        ensures
            period_list_items(l) == Seq::<u16>::empty(),
    {
        PeriodList { items: heapless::Vec::new() }
    }

    /// Calls `heapless::Vec::push`. Assumed: while fewer than `MAX_PERIODS`
    /// periods are held, the period is appended and the result is `Ok`;
    /// otherwise the list stays as it is and the period comes back in `Err`.
    #[verifier::external_body]
    pub(crate) fn push(&mut self, period: u16) -> (r: Result<(), u16>)
        ensures
            (match r {
                Ok(()) => period_list_items(*old(self)).len() < MAX_PERIODS && period_list_items(
                    *final(self),
                ) == period_list_items(*old(self)).push(period),
                Err(back) => period_list_items(*old(self)).len() >= MAX_PERIODS && back == period
                    && period_list_items(*final(self)) == period_list_items(*old(self)),
            }),
    {
        self.items.push(period)
    }

    /// Dereferences the `heapless::Vec` to its slice. Assumed: the slice
    /// holds the periods of the list, in the order in which they were pushed.
    #[verifier::external_body]
    pub(crate) fn as_slice(&self) -> (s: &[u16])
        ensures
            s@ == period_list_items(*self),
    {
        &self.items
    }
}

/// Sum, count and spread of the periods of one shaped window.
///
/// A period is the distance between two successive rising edges found at the
/// indices `SCAN_START..SCAN_END`; only the first `MAX_PERIODS` periods count.
/// A window without a period gives `(0, 0, NO_PERIOD_SPREAD)`: its spread is
/// above `SPREAD_LIMIT`, so that nobody who goes by the spread alone takes
/// the window for a steady one.
pub fn get_rise_edge(barray: &[u8]) -> (r: (u32, u32, u32))
    requires
        barray@.len() == SMP_POINTS,
    ensures
        r.0 == total(window_periods(barray@)),
        r.1 == window_periods(barray@).len(),
        r.2 == window_spread(window_periods(barray@)),
        r.1 > 0 ==> r.2 == largest(window_periods(barray@)) - smallest(window_periods(barray@)),
        r.1 == 0 ==> r.0 == 0 && r.2 == NO_PERIOD_SPREAD && r.2 > SPREAD_LIMIT,
{
    let mut term = PeriodList::new();
    let mut current: usize = 0;
    let mut i: usize = SCAN_START;
    while i < SCAN_END
        invariant
            barray@.len() == SMP_POINTS,
            SCAN_START <= i <= SCAN_END,
            current == 0 <==> rising_edges(barray@, i as int).len() == 0,
            current != 0 ==> current == rising_edges(barray@, i as int).last(),
            current < i,
            as_ints(period_list_items(term)) == periods_upto(barray@, i as int),
        decreases SCAN_END - i,
    {
        proof {
            lemma_scan_step(barray@, i as int);
            lemma_edges_ascend(barray@, i as int);
        }
        if barray[i] == 0 && barray[i + 1] == 1 {
            if current == 0 {
                current = i;
            } else {
                let _ = term.push((i - current) as u16);
                current = i;
            }
        }
        i += 1;
    }
    let periods = term.as_slice();
    let ghost p = window_periods(barray@);
    proof {
        lemma_periods_positive(barray@);
    }
    let mut sum: u32 = 0;
    let mut num: u32 = 0;
    let mut min: u16 = SEARCH_CEILING;
    let mut max: u16 = 0;
    let mut k: usize = 0;
    while k < periods.len()
        invariant
            as_ints(periods@) == p,
            p.len() <= MAX_PERIODS,
            forall|j: int| 0 <= j < p.len() ==> 2 <= #[trigger] p[j] < SMP_POINTS,
            0 <= k <= periods.len(),
            num == k,
            sum == total(p.take(k as int)),
            sum <= k * 0xffff,
            k == 0 ==> max == 0 && min == SEARCH_CEILING,
            k > 0 ==> max == largest(p.take(k as int)) && min == smallest(p.take(k as int)),
        decreases periods.len() - k,
    {
        let d: u16 = periods[k];
        proof {
            assert(p[k as int] == d);
            lemma_prefix_step(p, k as int);
        }
        sum += d as u32;
        num += 1;
        if d > max {
            max = d;
        }
        if d < min {
            min = d;
        }
        k += 1;
    }
    proof {
        assert(p.take(k as int) =~= p);
    }
    (sum, num, max.wrapping_sub(min) as u32)
}

} // verus!
