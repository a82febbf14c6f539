use tuner::accumulator::SPREAD_LIMIT;
use tuner::periods::{
    get_rise_edge, MAX_PERIODS, NO_PERIOD_SPREAD, SCAN_END, SCAN_START, SEARCH_CEILING,
};
use tuner::window::SMP_POINTS;

fn signal_with_edges(edges: &[usize]) -> Vec<u8> {
    let mut signal = vec![0u8; SMP_POINTS];
    for &e in edges {
        signal[e + 1] = 1;
    }
    signal
}

#[test]
fn periods_of_known_edges() {
    let signal = signal_with_edges(&[10, 30, 55, 81]);
    assert_eq!(get_rise_edge(&signal), (71, 3, 6));
}

#[test]
fn scan_limits_have_their_values() {
    assert_eq!(SCAN_START, 3);
    assert_eq!(SCAN_END, 2043);
    assert_eq!(MAX_PERIODS, 50);
}

#[test]
fn signal_without_an_edge_has_no_period() {
    assert_eq!(get_rise_edge(&vec![0u8; SMP_POINTS]), (0, 0, 55_536));
    assert_eq!(get_rise_edge(&vec![1u8; SMP_POINTS]), (0, 0, 55_536));
}

#[test]
fn single_edge_has_no_period() {
    let signal = signal_with_edges(&[1000]);
    assert_eq!(get_rise_edge(&signal), (0, 0, 55_536));
}

#[test]
fn two_edges_make_one_period() {
    let signal = signal_with_edges(&[1000, 1188]);
    assert_eq!(get_rise_edge(&signal), (188, 1, 0));
}

#[test]
fn edges_outside_the_scan_are_not_seen() {
    // edges at 2 and at 2043 lie outside 3..2043
    let signal = signal_with_edges(&[2, 100, 300, 2043]);
    assert_eq!(get_rise_edge(&signal), (200, 1, 0));
    // edges at 3 and at 2042 are the first and the last that count
    let signal = signal_with_edges(&[3, 2042]);
    assert_eq!(get_rise_edge(&signal), (2039, 1, 0));
}

#[test]
fn falling_edges_do_not_count() {
    let mut signal = vec![1u8; SMP_POINTS];
    signal[500] = 0;
    signal[800] = 0;
    // rising edges at 500 and 800
    assert_eq!(get_rise_edge(&signal), (300, 1, 0));
}

#[test]
fn only_the_first_fifty_periods_count() {
    // 61 edges, 20 apart, then one far away: 60 periods of 20 and one of 500
    let mut edges: Vec<usize> = (0..61).map(|k| 10 + 20 * k).collect();
    edges.push(1210 + 500);
    let signal = signal_with_edges(&edges);
    assert_eq!(get_rise_edge(&signal), (1000, 50, 0));
}

#[test]
fn fiftieth_period_still_counts() {
    // 50 periods of 20 and a last one of 30
    let mut edges: Vec<usize> = (0..50).map(|k| 10 + 20 * k).collect();
    edges.push(990 + 30);
    let signal = signal_with_edges(&edges);
    assert_eq!(get_rise_edge(&signal), (49 * 20 + 30, 50, 10));
}

#[test]
fn spread_is_largest_minus_smallest() {
    let signal = signal_with_edges(&[100, 150, 400, 410, 600]);
    // periods 50, 250, 10, 190
    assert_eq!(get_rise_edge(&signal), (500, 4, 240));
}

#[test]
fn spread_without_a_period_is_above_the_limit() {
    assert_eq!(SEARCH_CEILING, 10_000);
    assert_eq!(NO_PERIOD_SPREAD, 55_536);
    assert_eq!(NO_PERIOD_SPREAD, 0u16.wrapping_sub(SEARCH_CEILING) as u32);
    let (sum, count, spread) = get_rise_edge(&vec![0u8; SMP_POINTS]);
    assert_eq!((sum, count), (0, 0));
    assert!(spread > SPREAD_LIMIT);
}

#[test]
fn equal_periods_have_no_spread() {
    let signal = signal_with_edges(&[100, 300, 500, 700]);
    assert_eq!(get_rise_edge(&signal), (600, 3, 0));
}
