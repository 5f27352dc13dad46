use solid_kmers::monitor::ConvergenceMonitor;
use solid_kmers::monitor::StatusEvent;
use solid_kmers::monitor::ACCEL_THRESHOLD;
use solid_kmers::monitor::MIN_RECORDS;
use solid_kmers::monitor::WINDOW_CAPACITY;

#[test]
fn constants_are_the_documented_ones() {
    assert_eq!(WINDOW_CAPACITY, 10);
    assert_eq!(MIN_RECORDS, 50000);
    assert_eq!(ACCEL_THRESHOLD, 20);
}

#[test]
fn new_monitor_has_empty_windows() {
    let m = ConvergenceMonitor::new();
    assert!(m.growth_history().is_empty());
    assert!(m.accel_history().is_empty());
}

#[test]
fn first_sample_grows_from_zero_and_has_no_acceleration() {
    let mut m = ConvergenceMonitor::new();
    let ev = m.sample(0, 37);
    assert_eq!(
        ev,
        StatusEvent {
            reads: 0,
            kmers: 37,
            growth_sum: 37,
            growth_len: 1,
            accel_sum: 0,
            accel_len: 0,
            stop: false,
        }
    );
    assert_eq!(m.growth_history(), &vec![37i128]);
    assert!(m.accel_history().is_empty());
}

#[test]
fn second_sample_gives_the_first_acceleration() {
    let mut m = ConvergenceMonitor::new();
    m.sample(0, 37);
    let ev = m.sample(10000, 100);
    assert_eq!(
        ev,
        StatusEvent {
            reads: 10000,
            kmers: 100,
            growth_sum: 100,
            growth_len: 2,
            accel_sum: 26,
            accel_len: 1,
            stop: false,
        }
    );
    assert_eq!(m.growth_history(), &vec![37i128, 63]);
    assert_eq!(m.accel_history(), &vec![26i128]);
}

#[test]
fn equal_deltas_give_zero_acceleration_and_stop_after_min_records() {
    let mut m = ConvergenceMonitor::new();
    let mut index: u64 = 0;
    let mut count: u64 = 0;
    for step in 0..5 {
        count += 10;
        let ev = m.sample(index, count);
        assert_eq!(ev.growth_sum, 10 * (step + 1));
        assert_eq!(ev.growth_len, (step + 1) as usize);
        assert_eq!(ev.accel_sum, 0);
        assert_eq!(ev.accel_len, step as usize);
        assert!(!ev.stop);
        index += 10000;
    }
    assert_eq!(m.accel_history(), &vec![0i128, 0, 0, 0]);
    // Record index 50000 does not exceed the minimum.
    let at_minimum = m.sample(50000, 60);
    assert_eq!(at_minimum.accel_sum, 0);
    assert!(!at_minimum.stop);
    let past_minimum = m.sample(60000, 70);
    assert_eq!(past_minimum.accel_sum, 0);
    assert!(past_minimum.stop);
}

#[test]
fn stop_needs_more_than_min_records() {
    let mut m = ConvergenceMonitor::new();
    assert!(!m.sample(50000, 5).stop);
    let mut m = ConvergenceMonitor::new();
    assert!(m.sample(50001, 5).stop);
}

#[test]
fn empty_acceleration_window_counts_as_zero_mean() {
    let mut m = ConvergenceMonitor::new();
    let ev = m.sample(70000, 1000000);
    assert_eq!(ev.accel_len, 0);
    assert!(ev.stop);
}

#[test]
fn mean_acceleration_just_under_threshold_stops() {
    let mut m = ConvergenceMonitor::new();
    m.sample(0, 100);
    // growth 119 after growth 100: acceleration 19.
    let ev = m.sample(60000, 219);
    assert_eq!(ev.accel_sum, 19);
    assert_eq!(ev.accel_len, 1);
    assert!(ev.stop);
}

#[test]
fn mean_acceleration_at_threshold_goes_on() {
    let mut m = ConvergenceMonitor::new();
    m.sample(0, 100);
    // growth 120 after growth 100: acceleration 20.
    let ev = m.sample(60000, 220);
    assert_eq!(ev.accel_sum, 20);
    assert!(!ev.stop);
}

#[test]
fn negative_mean_acceleration_is_taken_by_magnitude() {
    let mut m = ConvergenceMonitor::new();
    m.sample(0, 100);
    // growth 81 after growth 100: acceleration -19.
    let ev = m.sample(60000, 181);
    assert_eq!(ev.accel_sum, -19);
    assert!(ev.stop);
    let mut m = ConvergenceMonitor::new();
    m.sample(0, 100);
    // growth 80 after growth 100: acceleration -20.
    let ev = m.sample(60000, 180);
    assert_eq!(ev.accel_sum, -20);
    assert!(!ev.stop);
}

#[test]
fn mean_is_taken_over_the_whole_window() {
    let mut m = ConvergenceMonitor::new();
    m.sample(0, 0);
    m.sample(1, 30);
    // accelerations 30 and then -30 + 9: the sum is 39 over two values.
    let ev = m.sample(60000, 69);
    assert_eq!(m.accel_history(), &vec![30i128, 9]);
    assert_eq!(ev.accel_sum, 39);
    assert_eq!(ev.accel_len, 2);
    assert!(ev.stop);
    let ev = m.sample(60001, 109);
    assert_eq!(m.accel_history(), &vec![30i128, 9, 1]);
    assert_eq!(ev.accel_sum, 40);
    assert!(ev.stop);
    let ev = m.sample(60002, 189);
    assert_eq!(m.accel_history(), &vec![30i128, 9, 1, 40]);
    assert_eq!(ev.accel_sum, 80);
    assert_eq!(ev.accel_len, 4);
    assert!(!ev.stop);
}

#[test]
fn falling_count_gives_negative_growth() {
    let mut m = ConvergenceMonitor::new();
    m.sample(0, 100);
    let ev = m.sample(1, 40);
    assert_eq!(m.growth_history(), &vec![100i128, -60]);
    assert_eq!(m.accel_history(), &vec![-160i128]);
    assert_eq!(ev.growth_sum, 40);
    assert_eq!(ev.accel_sum, -160);
}

#[test]
fn extreme_counts_do_not_overflow() {
    let mut m = ConvergenceMonitor::new();
    m.sample(0, u64::MAX);
    let ev = m.sample(1, 0);
    let max = u64::MAX as i128;
    assert_eq!(m.growth_history(), &vec![max, -max]);
    assert_eq!(m.accel_history(), &vec![-2 * max]);
    assert_eq!(ev.growth_sum, 0);
    assert_eq!(ev.accel_sum, -2 * max);
    let ev = m.sample(2, u64::MAX);
    assert_eq!(m.accel_history(), &vec![-2 * max, 2 * max]);
    assert_eq!(ev.growth_sum, max);
    assert_eq!(ev.accel_sum, 0);
}

#[test]
fn windows_keep_the_last_ten_of_fifteen() {
    let mut m = ConvergenceMonitor::new();
    let mut count: u64 = 0;
    let mut last = None;
    for i in 1..=15u64 {
        count += i * i;
        last = Some(m.sample(i, count));
    }
    let growth: Vec<i128> = (6..=15).map(|i: i128| i * i).collect();
    let accel: Vec<i128> = (5..=14).map(|i: i128| 2 * i + 1).collect();
    assert_eq!(m.growth_history(), &growth);
    assert_eq!(m.accel_history(), &accel);
    let ev = last.unwrap();
    assert_eq!(ev.growth_len, 10);
    assert_eq!(ev.growth_sum, 1185);
    assert_eq!(ev.accel_len, 10);
    assert_eq!(ev.accel_sum, 200);
    assert_eq!(ev.kmers, 1240);
    assert_eq!(ev.reads, 15);
}

#[test]
fn windows_never_exceed_capacity() {
    let mut m = ConvergenceMonitor::new();
    for i in 0..40u64 {
        m.sample(i, i * 3);
        assert!(m.growth_history().len() <= WINDOW_CAPACITY);
        assert!(m.accel_history().len() <= WINDOW_CAPACITY);
        assert_eq!(m.growth_history().len(), std::cmp::min(i as usize + 1, 10));
        assert_eq!(m.accel_history().len(), std::cmp::min(i as usize, 10));
    }
}

#[test]
fn window_fills_before_it_slides() {
    let mut m = ConvergenceMonitor::new();
    let mut count: u64 = 0;
    for i in 1..=10u64 {
        count += i;
        m.sample(i, count);
    }
    assert_eq!(m.growth_history(), &vec![1i128, 2, 3, 4, 5, 6, 7, 8, 9, 10]);
    assert_eq!(m.accel_history(), &vec![1i128; 9]);
    count += 11;
    m.sample(11, count);
    assert_eq!(m.growth_history(), &vec![2i128, 3, 4, 5, 6, 7, 8, 9, 10, 11]);
    assert_eq!(m.accel_history(), &vec![1i128; 10]);
}

#[test]
fn sum_at_threshold_times_length_goes_on() {
    let mut m = ConvergenceMonitor::new();
    let mut count: u64 = 0;
    let mut ev = None;
    for i in 1..=15u64 {
        count += i * i;
        ev = Some(m.sample(100000 + i, count));
    }
    // The acceleration window sums to 200 over ten values: a mean of exactly 20.
    assert!(!ev.unwrap().stop);
}
