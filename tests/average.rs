use subchunker::average::RunningAverage;

#[test]
fn average_of_nothing_is_zero() {
    let r = RunningAverage::new();
    assert_eq!(r.average(), 0);
    assert_eq!(r.count(), 0);
}

#[test]
fn add_returns_the_new_mean() {
    let mut r = RunningAverage::new();
    assert_eq!(r.add(10_000), 10_000);
    assert_eq!(r.add(20_000), 15_000);
    assert_eq!(r.add(60_000), 30_000);
    assert_eq!(r.average(), 30_000);
    assert_eq!(r.count(), 3);
}

#[test]
fn mean_is_rounded_down() {
    let mut r = RunningAverage::new();
    r.add(1);
    r.add(2);
    assert_eq!(r.average(), 1);
}

#[test]
fn long_stream_matches_sum_and_divide() {
    let mut r = RunningAverage::new();
    let mut state: u64 = 0x2545_F491_4F6C_DD1D;
    let mut sum: u128 = 0;
    let n: u64 = 100_000;
    for _ in 0..n {
        state = state.wrapping_mul(6364136223846793005).wrapping_add(1442695040888963407);
        let v = state >> 20;
        sum += v as u128;
        r.add(v);
    }
    let naive = (sum / n as u128) as u64;
    assert_eq!(r.average(), naive);
    let exact = sum as f64 / n as f64;
    assert!(((r.average() as f64) - exact).abs() <= exact * 1e-6);
}

#[test]
fn large_samples_do_not_overflow() {
    let mut r = RunningAverage::new();
    r.add(u64::MAX);
    r.add(u64::MAX);
    r.add(u64::MAX);
    assert_eq!(r.average(), u64::MAX);
}
