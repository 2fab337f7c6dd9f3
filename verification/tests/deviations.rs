use moving_stats::deviation::mean_deviation;
use moving_stats::{MovingStatistics, StatsError, OHLC};
use std::collections::HashMap;

fn flat(time: i64, value: i64) -> OHLC {
    OHLC {
        time,
        open: value,
        high: value,
        low: value,
        close: value,
        vwap: value,
        volume: value,
        count: value,
    }
}

fn filled(capacity: usize, values: &[i64]) -> MovingStatistics {
    let mut stats = MovingStatistics::new(capacity);
    for (i, v) in values.iter().enumerate() {
        let _ = stats.update(flat(i as i64 * 10, *v));
    }
    stats
}

#[test]
fn deviation_of_each_window() {
    let stats = filled(4, &[0, 20, 40, 100]);
    let means = stats.means(vec![2]).unwrap();
    assert_eq!(means[&2], vec![flat(5, 10), flat(15, 30), flat(25, 70)]);
    let spread = stats.deviations(&means).unwrap();
    assert_eq!(spread.len(), 1);
    assert_eq!(spread[&2], vec![flat(5, 10), flat(5, 10), flat(5, 30)]);
}

#[test]
fn deviation_for_several_lengths() {
    let stats = filled(5, &[1, 2, 3, 10]);
    let means = stats.means(vec![1, 3, 4, 5]).unwrap();
    let spread = stats.deviations(&means).unwrap();
    assert_eq!(spread.len(), 4);
    assert_eq!(spread[&1], vec![flat(0, 0); 4]);
    assert_eq!(means[&3], vec![flat(10, 2), flat(20, 5)]);
    assert_eq!(spread[&3], vec![flat(6, 0), flat(6, 3)]);
    assert_eq!(means[&4], vec![flat(15, 4)]);
    assert_eq!(spread[&4], vec![flat(10, 3)]);
    assert_eq!(spread[&5], Vec::<OHLC>::new());
}

#[test]
fn deviation_from_given_averages() {
    let stats = filled(3, &[5, 5, 5]);
    let mut means = HashMap::new();
    means.insert(3usize, vec![flat(0, 2)]);
    let spread = stats.deviations(&means).unwrap();
    assert_eq!(spread[&3], vec![flat(10, 3)]);
}

#[test]
fn constant_bars_do_not_deviate() {
    let mut stats = MovingStatistics::new(6);
    for _ in 0..6 {
        let _ = stats.update(flat(3, 42));
    }
    let means = stats.means(vec![1]).unwrap();
    let spread = stats.deviations(&means).unwrap();
    assert_eq!(spread[&1], vec![OHLC::new_zero()]);
}

#[test]
fn averages_from_means_are_accepted() {
    let stats = filled(8, &[3, 1, 4, 1, 5, 9]);
    let lengths: Vec<usize> = (1..=8).collect();
    let means = stats.means(lengths).unwrap();
    let spread = stats.deviations(&means).unwrap();
    assert_eq!(spread.len(), 8);
    for length in 1..=8usize {
        assert_eq!(spread[&length].len(), means[&length].len());
    }
}

#[test]
fn no_averages_give_an_empty_table() {
    let stats = filled(3, &[1, 2]);
    let spread = stats.deviations(&HashMap::new()).unwrap();
    assert!(spread.is_empty());
}

#[test]
fn wrong_number_of_averages_is_refused() {
    let stats = filled(4, &[0, 20, 40]);
    let mut means = HashMap::new();
    means.insert(2usize, vec![flat(5, 10)]);
    assert_eq!(
        stats.deviations(&means),
        Err(StatsError::LengthMismatch {
            window: 2,
            expected: 2,
            found: 1
        })
    );
    let mut means = HashMap::new();
    means.insert(4usize, vec![flat(5, 10)]);
    assert_eq!(
        stats.deviations(&means),
        Err(StatsError::LengthMismatch {
            window: 4,
            expected: 0,
            found: 1
        })
    );
}

#[test]
fn length_beyond_capacity_is_refused() {
    let stats = filled(4, &[0, 20, 40]);
    let mut means = HashMap::new();
    means.insert(5usize, Vec::new());
    assert_eq!(
        stats.deviations(&means),
        Err(StatsError::WindowTooLarge {
            window: 5,
            universe_window: 4
        })
    );
}

#[test]
fn stale_averages_are_refused() {
    let mut stats = filled(5, &[1, 2, 3]);
    let means = stats.means(vec![2]).unwrap();
    assert!(stats.deviations(&means).is_ok());
    let _ = stats.update(flat(100, 4));
    assert_eq!(
        stats.deviations(&means),
        Err(StatsError::LengthMismatch {
            window: 2,
            expected: 3,
            found: 2
        })
    );
}

#[test]
fn refusal_leaves_the_window_as_it_was() {
    let stats = filled(4, &[0, 20, 40]);
    let before = stats.snapshot();
    let mut means = HashMap::new();
    means.insert(9usize, Vec::new());
    assert!(stats.deviations(&means).is_err());
    assert!(stats.means(vec![9]).is_err());
    assert_eq!(stats.snapshot(), before);
    assert_eq!(stats.len(), 3);
}

#[test]
fn deviation_of_windows_given_directly() {
    let bars = vec![flat(0, 0), flat(10, 20), flat(20, 40), flat(30, 100)];
    let means = vec![flat(5, 10), flat(15, 30), flat(25, 70)];
    assert_eq!(
        mean_deviation(&bars, &means, 2),
        vec![flat(5, 10), flat(5, 10), flat(5, 30)]
    );
    assert_eq!(mean_deviation(&bars, &Vec::new(), 5), Vec::<OHLC>::new());
}

fn next(seed: &mut u64) -> u64 {
    *seed = seed
        .wrapping_mul(6364136223846793005)
        .wrapping_add(1442695040888963407);
    *seed >> 33
}

#[test]
fn deviations_agree_with_direct_sums() {
    let mut seed = 5;
    let mut stats = MovingStatistics::new(9);
    for step in 0..30 {
        let mut bar = flat(step, (next(&mut seed) % 2000) as i64 - 1000);
        bar.close = (next(&mut seed) % 90) as i64;
        let _ = stats.update(bar);
    }
    let bars = stats.snapshot();
    let lengths: Vec<usize> = (1..=9).collect();
    let means = stats.means(lengths).unwrap();
    let spread = stats.deviations(&means).unwrap();
    for length in 1..=9usize {
        let want: Vec<OHLC> = (0..=bars.len() - length)
            .map(|start| {
                let mut sum = OHLC::new_zero();
                for bar in &bars[start..start + length] {
                    sum = sum + bar.abs_diff(means[&length][start]);
                }
                sum / length
            })
            .collect();
        assert_eq!(spread[&length], want);
    }
}
