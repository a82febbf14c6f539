use tuner::binarize::get_barray;
use tuner::normalize::Mean;
use tuner::window::SMP_POINTS;

#[test]
fn flat_window_is_high_everywhere_inside() {
    let window = vec![1234u16; SMP_POINTS];
    let mean = Mean { sum: 1234 * SMP_POINTS as u32 };
    let mut bits = vec![0u8; SMP_POINTS];
    get_barray(&window, mean, &mut bits);
    for k in 0..SMP_POINTS {
        let inside = k >= 3 && k < SMP_POINTS - 3;
        assert_eq!(bits[k], if inside { 1 } else { 0 });
    }
}

#[test]
fn binarizer_leaves_the_ends_alone() {
    let window = vec![10u16; SMP_POINTS];
    let mean = Mean { sum: 11 * SMP_POINTS as u32 };
    let mut bits = vec![9u8; SMP_POINTS];
    get_barray(&window, mean, &mut bits);
    for k in 0..SMP_POINTS {
        let inside = k >= 3 && k < SMP_POINTS - 3;
        assert_eq!(bits[k], if inside { 0 } else { 9 });
    }
}

#[test]
fn average_just_below_the_mean_is_low() {
    let window = vec![100u16; SMP_POINTS];
    // mean = 100 + 1/2048
    let mean = Mean { sum: 100 * SMP_POINTS as u32 + 1 };
    let mut bits = vec![1u8; SMP_POINTS];
    get_barray(&window, mean, &mut bits);
    assert!(bits[3..SMP_POINTS - 3].iter().all(|&b| b == 0));
}

#[test]
fn step_is_followed_by_the_moving_average() {
    // 0 up to index 999, 700 from index 1000 on; mean 350
    let mut window = vec![0u16; SMP_POINTS];
    for k in 1000..SMP_POINTS {
        window[k] = 700;
    }
    let mean = Mean { sum: 350 * SMP_POINTS as u32 };
    let mut bits = vec![0u8; SMP_POINTS];
    get_barray(&window, mean, &mut bits);
    // at 999 three of seven taps are high: 300 < 350; at 1000 four are: 400
    assert_eq!(bits[996], 0);
    assert_eq!(bits[999], 0);
    assert_eq!(bits[1000], 1);
    assert_eq!(bits[1003], 1);
}

#[test]
fn average_is_not_rounded_before_it_is_compared() {
    // taps sum to 7 * 50 + 1: the average is 50 + 1/7, the mean 50 + 1/8
    let mut window = vec![50u16; SMP_POINTS];
    window[500] = 51;
    let mean = Mean { sum: 50 * SMP_POINTS as u32 + 256 };
    let mut bits = vec![0u8; SMP_POINTS];
    get_barray(&window, mean, &mut bits);
    assert_eq!(bits[496], 0);
    assert_eq!(bits[497], 1);
    assert_eq!(bits[500], 1);
    assert_eq!(bits[503], 1);
    assert_eq!(bits[504], 0);
}
