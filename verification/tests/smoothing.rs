use edge_impulse_ffi::filter::{MovingAverageFilter, Score};

#[test]
fn constant_stream_stays_constant() {
    // feeding 1.0 five times to a window-4 filter yields 1.0 five times
    let one = 1_000_000; // 1.0 in fixed-point units
    let mut f = MovingAverageFilter::new(4);
    for _ in 0..5 {
        let s = f.update(one);
        // the output is exactly 1.0: num/den == one
        assert_eq!(s.num, s.den as i64 * one as i64);
    }
}

#[test]
fn running_average_until_saturation() {
    // feeding [4.0, 0.0, 0.0, 0.0] yields the running means 4.0, 2.0, 4/3, 1.0
    let mut f = MovingAverageFilter::new(4);
    let s1 = f.update(4_000_000);
    assert_eq!((s1.num, s1.den), (4_000_000, 1));
    let s2 = f.update(0);
    assert_eq!((s2.num, s2.den), (4_000_000, 2));
    let s3 = f.update(0);
    assert_eq!((s3.num, s3.den), (4_000_000, 3)); // exactly 4/3 = 1.33..
    let s4 = f.update(0);
    assert_eq!((s4.num, s4.den), (4_000_000, 4));
}

#[test]
fn saturated_window_evicts_oldest() {
    // a fifth value pushes the first out of the window-4 sum
    let mut f = MovingAverageFilter::new(4);
    f.update(10);
    f.update(20);
    f.update(30);
    f.update(40);
    let s = f.update(50);
    assert_eq!((s.num, s.den), (140, 4)); // 20 + 30 + 40 + 50
}

#[test]
fn negative_scores_average_exactly() {
    let mut f = MovingAverageFilter::new(2);
    f.update(-10);
    let s = f.update(4);
    assert_eq!((s.num, s.den), (-6, 2));
}

#[test]
fn from_raw_is_exact() {
    let s = Score::from_raw(-7);
    assert_eq!((s.num, s.den), (-7, 1));
}
