use tuner::normalize::{normalization, Mean, SMP_THRE};
use tuner::window::{FULL_SCALE, SMP_POINTS};

fn window_between(low: u16, high: u16) -> Vec<u16> {
    let mut window = vec![low; SMP_POINTS];
    for k in 0..SMP_POINTS {
        if k % 2 == 1 {
            window[k] = high;
        }
    }
    window
}

#[test]
fn window_constants_have_their_values() {
    assert_eq!(SMP_POINTS, 2048);
    assert_eq!(FULL_SCALE, 0x3fff);
    assert_eq!(SMP_THRE, 2048);
}

#[test]
fn extremes_map_to_the_ends_of_the_scale() {
    let window = window_between(100, 1124);
    let mut out = vec![0u16; SMP_POINTS];
    let (mean, reject) = normalization(&window, &mut out);
    assert!(!reject);
    for k in 0..SMP_POINTS {
        assert_eq!(out[k], if k % 2 == 1 { 0x3fff } else { 0 });
    }
    assert_eq!(mean, Mean { sum: 1024 * 0x3fff });
}

#[test]
fn samples_in_between_are_scaled_and_rounded_down() {
    let mut window = window_between(100, 1124);
    window[10] = 612;
    window[12] = 101;
    window[14] = 356;
    let mut out = vec![0u16; SMP_POINTS];
    let (mean, reject) = normalization(&window, &mut out);
    assert!(!reject);
    // (612 - 100) * 16383 / 1024
    assert_eq!(out[10], 8191);
    // (101 - 100) * 16383 / 1024
    assert_eq!(out[12], 15);
    // (356 - 100) * 16383 / 1024
    assert_eq!(out[14], 4095);
    assert_eq!(mean.sum, 1024 * 0x3fff + 8191 + 15 + 4095);
}

#[test]
fn every_output_lies_within_the_scale() {
    let mut window = vec![0u16; SMP_POINTS];
    for k in 0..SMP_POINTS {
        window[k] = ((k * 37) % 1500) as u16 + 20000;
    }
    let mut out = vec![0xffffu16; SMP_POINTS];
    let _ = normalization(&window, &mut out);
    assert!(out.iter().all(|&x| x <= FULL_SCALE));
    assert!(out.contains(&0));
    assert!(out.contains(&FULL_SCALE));
}

#[test]
fn swing_at_the_threshold_passes() {
    let window = window_between(1000, 1000 + 2048);
    let mut out = vec![0u16; SMP_POINTS];
    let (_, reject) = normalization(&window, &mut out);
    assert!(!reject);
}

#[test]
fn swing_above_the_threshold_is_rejected() {
    let window = window_between(1000, 1000 + 2049);
    let mut out = vec![0u16; SMP_POINTS];
    let (mean, reject) = normalization(&window, &mut out);
    assert!(reject);
    // the window is rescaled all the same
    assert_eq!(out[0], 0);
    assert_eq!(out[1], 0x3fff);
    assert_eq!(mean.sum, 1024 * 0x3fff);
}

#[test]
fn flat_window_is_rejected() {
    let window = vec![777u16; SMP_POINTS];
    let mut out = vec![5u16; SMP_POINTS];
    let (mean, reject) = normalization(&window, &mut out);
    assert!(reject);
    assert!(out.iter().all(|&x| x == 0));
    assert_eq!(mean, Mean { sum: 0 });
}

#[test]
fn last_sample_counts() {
    let mut window = vec![500u16; SMP_POINTS];
    window[SMP_POINTS - 1] = 600;
    let mut out = vec![0u16; SMP_POINTS];
    let (mean, reject) = normalization(&window, &mut out);
    assert!(!reject);
    assert_eq!(out[SMP_POINTS - 1], 0x3fff);
    assert_eq!(out[0], 0);
    assert_eq!(mean.sum, 0x3fff);
}

#[test]
fn rising_window_finds_its_minimum() {
    let mut window = vec![0u16; SMP_POINTS];
    for k in 0..SMP_POINTS {
        window[k] = 5 + (k / 4) as u16;
    }
    let mut out = vec![0u16; SMP_POINTS];
    let (_, reject) = normalization(&window, &mut out);
    assert!(!reject);
    assert_eq!(out[0], 0);
    assert_eq!(out[SMP_POINTS - 1], 0x3fff);
    // (1 * 16383) / 511
    assert_eq!(out[4], 32);
}

#[test]
fn full_range_of_the_converter_does_not_overflow() {
    let window = window_between(0, 0xffff);
    let mut out = vec![0u16; SMP_POINTS];
    let (mean, reject) = normalization(&window, &mut out);
    assert!(reject);
    assert_eq!(out[1], 0x3fff);
    assert_eq!(mean.sum, 1024 * 0x3fff);
}
