use fleascope_live::plot_area::ContinuousBuffer;

#[test]
fn synthetic_timestamps_follow_the_rate() {
    // 1000 Hz: one sample every 1000 microseconds.
    let mut b = ContinuousBuffer::new(1000);
    b.add_batch(vec![5, 6, 7]);
    let (x, y) = b.get_data_in_window(10_000, false, 100);
    // three samples land in three bins; the two edge bins are dropped
    assert_eq!(x, vec![1000]);
    assert_eq!(y, vec![6]);
}

#[test]
fn round_trip_points_stay_in_window() {
    // N samples at rate R, then a window of N/R seconds with budget P:
    // at most P points, every timestamp inside the window.
    let rate = 1000u32;
    let n = 1000usize;
    let mut b = ContinuousBuffer::new(rate);
    let batch: Vec<i64> = (0..n as i64).collect();
    b.add_batch(batch);
    let window_us = 1_000_000u64; // n / rate seconds
    let p = 50u32;
    let (x, y) = b.get_data_in_window(window_us, false, p);
    assert_eq!(x.len(), y.len());
    assert!(x.len() <= p as usize);
    assert!(!x.is_empty());
    let latest = 1_000_000u64; // count * 1e6 / rate
    let start = latest - window_us;
    for &t in &x {
        assert!(start <= t && t <= latest);
    }
}

#[test]
fn identical_queries_give_identical_output() {
    let mut b = ContinuousBuffer::new(500);
    b.add_batch((0..400).map(|i| (i * 3) % 101 - 50).collect());
    let first = b.get_data_in_window(300_000, false, 40);
    let second = b.get_data_in_window(300_000, false, 40);
    assert_eq!(first, second);
    let wrapped1 = b.get_data_in_window(300_000, true, 40);
    let wrapped2 = b.get_data_in_window(300_000, true, 40);
    assert_eq!(wrapped1, wrapped2);
}

#[test]
fn wrap_mode_maps_times_into_the_window() {
    let mut b = ContinuousBuffer::new(1000);
    b.add_batch((0..3000).map(|i| i % 7).collect());
    let window_us = 1_000_000u64;
    let (x, _) = b.get_data_in_window(window_us, true, 30);
    assert!(!x.is_empty());
    for &t in &x {
        assert!(t < window_us);
    }
    // wrap mode keeps the horizontal positions sorted
    for w in x.windows(2) {
        assert!(w[0] <= w[1]);
    }
}

#[test]
fn bins_reduce_to_the_median() {
    // 10 Hz: one sample every 100_000 us; budget 10 over 1 s puts each
    // sample in its own bin, so medians are the samples themselves.
    let mut b = ContinuousBuffer::new(10);
    b.add_batch(vec![4, 9, 2, 7, 5, 1, 8, 3, 6, 0]);
    let (x, y) = b.get_data_in_window(1_000_000, false, 10);
    assert_eq!(x.len(), y.len());
    // bins of 100_000 us each; first and last are dropped
    assert_eq!(y, vec![9, 2, 7, 5, 1, 8, 3, 6]);
    assert_eq!(x, vec![100_000, 200_000, 300_000, 400_000, 500_000, 600_000, 700_000, 800_000]);
}

#[test]
fn median_of_even_bin_is_the_midpoint() {
    // 2 samples per bin: bin size 500_000 us at 4 Hz over 1 s, budget 2.
    let mut b = ContinuousBuffer::new(4);
    b.add_batch(vec![10, 20, 1, 7, 100, 90, 4, 4]);
    // window of 2 s: 8 samples, 4 bins of 500_000 us, keep the middle 2
    let (x, y) = b.get_data_in_window(2_000_000, false, 4);
    assert_eq!(x, vec![500_000, 1_000_000]);
    assert_eq!(y, vec![4, 95]);
}

#[test]
fn trim_drops_the_oldest_samples() {
    let mut b = ContinuousBuffer::new(1000);
    b.add_batch((0..2000).collect());
    // keep half a second: 500 samples at 1000 Hz
    b.cleanup_old_batches(500_000);
    let (x, y) = b.get_data_in_window(2_000_000, false, 2000);
    assert_eq!(x.len(), y.len());
    // only samples 1500.. survive the trim; the two edge bins go
    assert!(y.iter().all(|&v| v >= 1500));
    assert!(x.iter().all(|&t| t >= 1_500_000));
}

#[test]
fn empty_buffer_yields_no_points() {
    let b = ContinuousBuffer::new(1000);
    let (x, y) = b.get_data_in_window(1_000_000, false, 100);
    assert!(x.is_empty());
    assert!(y.is_empty());
}

#[test]
fn appends_accumulate_across_batches() {
    let mut b = ContinuousBuffer::new(10);
    b.add_batch(vec![1, 2, 3]);
    b.add_batch(vec![4, 5, 6, 7, 8, 9, 10]);
    let (_, y) = b.get_data_in_window(1_000_000, false, 10);
    assert_eq!(y, vec![2, 3, 4, 5, 6, 7, 8, 9]);
}
