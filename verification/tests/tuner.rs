use tuner::accumulator::{AveragePeriod, Verdict};
use tuner::buffer::{BufferPair, Delivery};
use tuner::tuner::{measure_window, Tuner, WindowOutcome};
use tuner::window::SMP_POINTS;

/// A square wave between `low` and `high` with `period` samples to a cycle,
/// the first `offset` samples of which are cut off.
fn square_wave(low: u16, high: u16, period: usize, offset: usize) -> Vec<u16> {
    (0..SMP_POINTS)
        .map(|k| if ((k + offset) % period) * 2 < period { low } else { high })
        .collect()
}

fn sine_wave(centre: f64, amplitude: f64, period: f64) -> Vec<u16> {
    (0..SMP_POINTS)
        .map(|k| {
            let phase = 2.0 * std::f64::consts::PI * (k as f64) / period;
            (centre + amplitude * phase.sin()) as u16
        })
        .collect()
}

#[test]
fn square_wave_is_measured_exactly() {
    // rising edges of the wave every 188 samples: 10 periods in a window
    let window = square_wave(1000, 2000, 188, 0);
    assert_eq!(measure_window(&window), Some((1880, 10, 0)));
}

#[test]
fn sine_wave_is_measured_within_a_sample() {
    // the wave rises through its mean at 188, 376, ..., 1880: 9 periods
    let window = sine_wave(8000.0, 500.0, 188.0);
    let (sum, count, spread) = measure_window(&window).unwrap();
    assert_eq!(count, 9);
    assert!(1691 <= sum && sum <= 1693);
    assert!(spread <= 2);
}

#[test]
fn loud_window_is_rejected() {
    let window = square_wave(1000, 1000 + 2049, 188, 0);
    assert_eq!(measure_window(&window), None);
    let mut tuner = Tuner::new();
    assert_eq!(tuner.process_window(&window), WindowOutcome::Rejected);
}

#[test]
fn silent_window_is_rejected() {
    let window = vec![4321u16; SMP_POINTS];
    assert_eq!(measure_window(&window), None);
    let mut tuner = Tuner::new();
    assert_eq!(tuner.process_window(&window), WindowOutcome::Rejected);
}

#[test]
fn window_with_one_cycle_has_no_period() {
    // a single rising edge in the middle
    let mut window = vec![1000u16; SMP_POINTS];
    for k in 1024..SMP_POINTS {
        window[k] = 1500;
    }
    assert_eq!(measure_window(&window), Some((0, 0, 55_536)));
    let mut tuner = Tuner::new();
    assert_eq!(tuner.process_window(&window), WindowOutcome::Measured(Verdict::NoPeriod));
}

#[test]
fn window_of_uneven_cycles_is_unstable() {
    // cycles of 100 samples, then cycles of 300
    let mut window = square_wave(1000, 2000, 100, 0);
    let slow = square_wave(1000, 2000, 300, 0);
    for k in 1000..SMP_POINTS {
        window[k] = slow[k - 1000];
    }
    let (_, count, spread) = measure_window(&window).unwrap();
    assert!(count > 0);
    assert!(spread > 100);
    let mut tuner = Tuner::new();
    assert_eq!(tuner.process_window(&window), WindowOutcome::Measured(Verdict::Unstable));
}

#[test]
fn twenty_windows_make_an_estimate() {
    let window = square_wave(1000, 2000, 188, 0);
    let mut tuner = Tuner::new();
    for _ in 0..19 {
        assert_eq!(tuner.process_window(&window), WindowOutcome::Measured(Verdict::Accumulated));
    }
    let average = AveragePeriod { sum: 37_600, count: 200 };
    assert_eq!(
        tuner.process_window(&window),
        WindowOutcome::Measured(Verdict::Estimated(average))
    );
    assert_eq!(average.frequency_millihertz(), Some(441_367));
    // and the next cycle starts from nothing
    assert_eq!(tuner.process_window(&window), WindowOutcome::Measured(Verdict::Accumulated));
}

#[test]
fn rejected_windows_do_not_count_towards_the_twenty() {
    let good = square_wave(1000, 2000, 188, 0);
    let loud = square_wave(0, 5000, 188, 0);
    let flat = vec![1u16; SMP_POINTS];
    let mut tuner = Tuner::new();
    for _ in 0..19 {
        assert_eq!(tuner.process_window(&loud), WindowOutcome::Rejected);
        assert_eq!(tuner.process_window(&good), WindowOutcome::Measured(Verdict::Accumulated));
        assert_eq!(tuner.process_window(&flat), WindowOutcome::Rejected);
    }
    assert_eq!(
        tuner.process_window(&good),
        WindowOutcome::Measured(Verdict::Estimated(AveragePeriod { sum: 37_600, count: 200 }))
    );
}

#[test]
fn poll_does_nothing_until_a_window_is_ready() {
    let mut buffers = BufferPair::new();
    let mut tuner = Tuner::new();
    assert_eq!(tuner.poll(&mut buffers), None);
    for &sample in square_wave(1000, 2000, 188, 0).iter() {
        assert_eq!(buffers.deliver(sample), Delivery::Appended);
        assert_eq!(tuner.poll(&mut buffers), None);
    }
    assert_eq!(buffers.deliver(0), Delivery::Swapped);
    assert_eq!(tuner.poll(&mut buffers), Some(WindowOutcome::Measured(Verdict::Accumulated)));
    // the window is gone
    assert!(!buffers.processing_is_full());
    assert_eq!(tuner.poll(&mut buffers), None);
}

#[test]
fn poll_clears_a_rejected_window_too() {
    let mut buffers = BufferPair::new();
    let mut tuner = Tuner::new();
    for _ in 0..SMP_POINTS {
        buffers.deliver(100);
    }
    assert_eq!(buffers.deliver(0), Delivery::Swapped);
    assert_eq!(tuner.poll(&mut buffers), Some(WindowOutcome::Rejected));
    assert!(!buffers.processing_is_full());
    assert_eq!(buffers.processing_window().len(), 0);
}

#[test]
fn producer_and_consumer_take_turns() {
    let mut buffers = BufferPair::new();
    let mut tuner = Tuner::new();
    let wave = square_wave(1000, 2000, 188, 0);
    let mut estimates = 0;
    let mut measured = 0;
    for _ in 0..45 {
        for &sample in wave.iter() {
            buffers.deliver(sample);
        }
        buffers.deliver(0);
        match tuner.poll(&mut buffers) {
            Some(WindowOutcome::Measured(Verdict::Estimated(average))) => {
                assert_eq!(average, AveragePeriod { sum: 37_600, count: 200 });
                estimates += 1;
                measured += 1;
            }
            Some(WindowOutcome::Measured(Verdict::Accumulated)) => measured += 1,
            other => panic!("unexpected outcome {:?}", other),
        }
    }
    assert_eq!(measured, 45);
    assert_eq!(estimates, 2);
}

#[test]
fn only_a_rejected_window_ends_the_turn() {
    assert!(WindowOutcome::Rejected.ends_turn());
    assert!(!WindowOutcome::Measured(Verdict::NoPeriod).ends_turn());
    assert!(!WindowOutcome::Measured(Verdict::Unstable).ends_turn());
    assert!(!WindowOutcome::Measured(Verdict::Accumulated).ends_turn());
    let average = AveragePeriod { sum: 188, count: 1 };
    assert!(!WindowOutcome::Measured(Verdict::Estimated(average)).ends_turn());
}
