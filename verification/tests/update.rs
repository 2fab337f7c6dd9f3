use moving_stats::{MovingStatistics, OHLC, UNITS_PER_WHOLE};

fn fixed(val: f32) -> i64 {
    (val as f64 * UNITS_PER_WHOLE as f64).round() as i64
}

fn zero_ohlc() -> OHLC {
    OHLC::new_zero()
}

fn const_ohlc(val: f32) -> OHLC {
    OHLC {
        time: val as i64,
        open: fixed(val),
        high: fixed(val),
        low: fixed(val),
        close: fixed(val),
        vwap: fixed(val),
        volume: fixed(val),
        count: val as i64,
    }
}

fn at(time: i64, price: i64) -> OHLC {
    OHLC {
        time,
        open: price,
        high: price + 2,
        low: price - 2,
        close: price + 1,
        vwap: price,
        volume: 10,
        count: 3,
    }
}

#[test]
fn test_vanilla_update() {
    let mut stats = MovingStatistics::new(10);

    assert!(stats.update(zero_ohlc()) == None);
    assert!(stats.update(zero_ohlc()) == None);
}

#[test]
fn test_null_universe_update() {
    let mut stats = MovingStatistics::new(0);

    let updated = stats.update(zero_ohlc());
    assert!(updated.is_some());
    assert!(updated == Some(zero_ohlc()));
}

#[test]
fn test_one_universe_update() {
    let mut stats = MovingStatistics::new(1);

    let updated = stats.update(zero_ohlc());
    assert!(updated.is_none());
    assert!(updated == None);

    let updated = stats.update(zero_ohlc());
    assert!(updated == Some(zero_ohlc()));
}

#[test]
fn new_window_is_empty() {
    let stats = MovingStatistics::new(7);
    assert_eq!(stats.len(), 0);
    assert_eq!(stats.capacity(), 7);
    assert_eq!(stats.snapshot(), Vec::<OHLC>::new());
}

#[test]
fn size_never_exceeds_capacity() {
    let mut stats = MovingStatistics::new(4);
    for i in 0..25 {
        let _ = stats.update(const_ohlc(i as f32));
        assert!(stats.len() <= stats.capacity());
        assert_eq!(stats.len(), std::cmp::min(i + 1, 4));
    }
    assert_eq!(stats.capacity(), 4);
}

#[test]
fn nothing_is_evicted_before_capacity() {
    let mut stats = MovingStatistics::new(5);
    for i in 0..5 {
        assert_eq!(stats.update(at(i, 100 + i)), None);
    }
    assert_eq!(stats.len(), 5);
}

#[test]
fn full_window_evicts_oldest_in_turn() {
    let mut stats = MovingStatistics::new(3);
    for i in 0..3 {
        assert_eq!(stats.update(at(i, 100 + i)), None);
    }
    for i in 3..20 {
        assert_eq!(stats.update(at(i, 100 + i)), Some(at(i - 3, 100 + i - 3)));
        assert_eq!(stats.len(), 3);
        assert_eq!(stats.snapshot(), vec![at(i - 2, 98 + i), at(i - 1, 99 + i), at(i, 100 + i)]);
    }
}

#[test]
fn eviction_goes_by_timestamp_not_by_arrival() {
    let mut stats = MovingStatistics::new(3);
    assert_eq!(stats.update(at(30, 1)), None);
    assert_eq!(stats.update(at(10, 2)), None);
    assert_eq!(stats.update(at(20, 3)), None);
    assert_eq!(stats.snapshot(), vec![at(10, 2), at(20, 3), at(30, 1)]);
    assert_eq!(stats.update(at(5, 4)), Some(at(10, 2)));
    assert_eq!(stats.snapshot(), vec![at(5, 4), at(20, 3), at(30, 1)]);
    assert_eq!(stats.update(at(40, 5)), Some(at(5, 4)));
    assert_eq!(stats.snapshot(), vec![at(20, 3), at(30, 1), at(40, 5)]);
}

#[test]
fn same_timestamp_overwrites_below_capacity() {
    let mut stats = MovingStatistics::new(3);
    assert_eq!(stats.update(at(1, 10)), None);
    assert_eq!(stats.update(at(2, 20)), None);
    assert_eq!(stats.update(at(1, 30)), None);
    assert_eq!(stats.len(), 2);
    assert_eq!(stats.snapshot(), vec![at(1, 30), at(2, 20)]);
}

#[test]
fn same_timestamp_in_a_full_window() {
    let mut stats = MovingStatistics::new(2);
    assert_eq!(stats.update(at(1, 10)), None);
    assert_eq!(stats.update(at(2, 20)), None);
    assert_eq!(stats.update(at(2, 30)), Some(at(1, 10)));
    assert_eq!(stats.snapshot(), vec![at(2, 30)]);
    assert_eq!(stats.update(at(3, 40)), None);
    assert_eq!(stats.snapshot(), vec![at(2, 30), at(3, 40)]);
    assert_eq!(stats.update(at(2, 50)), Some(at(2, 30)));
    assert_eq!(stats.snapshot(), vec![at(2, 50), at(3, 40)]);
}

#[test]
fn zero_capacity_hands_every_bar_back() {
    let mut stats = MovingStatistics::new(0);
    for i in 0..5 {
        assert_eq!(stats.update(at(i, 7 * i)), Some(at(i, 7 * i)));
        assert_eq!(stats.len(), 0);
    }
    assert_eq!(stats.snapshot(), Vec::<OHLC>::new());
}

#[test]
fn single_capacity_with_distinct_timestamps() {
    let mut stats = MovingStatistics::new(1);
    assert_eq!(stats.update(at(8, 1)), None);
    assert_eq!(stats.update(at(9, 2)), Some(at(8, 1)));
    assert_eq!(stats.update(at(4, 3)), Some(at(9, 2)));
    assert_eq!(stats.snapshot(), vec![at(4, 3)]);
}

#[test]
fn snapshot_is_in_time_order() {
    let mut stats = MovingStatistics::new(64);
    let times: [i64; 9] = [50, -3, 17, 4, 99, 0, -40, 23, 8];
    for t in times {
        assert_eq!(stats.update(at(t, t * 2)), None);
    }
    let mut sorted = times.to_vec();
    sorted.sort();
    let want: Vec<OHLC> = sorted.iter().map(|t| at(*t, *t * 2)).collect();
    assert_eq!(stats.snapshot(), want);
    assert_eq!(stats.len(), 9);
}

fn next(seed: &mut u64) -> u64 {
    *seed = seed
        .wrapping_mul(6364136223846793005)
        .wrapping_add(1442695040888963407);
    *seed >> 33
}

#[test]
fn window_follows_a_sorted_list() {
    for capacity in 0..7usize {
        let mut seed = 17 + capacity as u64;
        let mut stats = MovingStatistics::new(capacity);
        let mut model: Vec<OHLC> = Vec::new();
        for step in 0..400 {
            let unit = at((next(&mut seed) % 12) as i64 - 6, step);
            let mut want = None;
            if model.len() == capacity {
                if capacity == 0 {
                    assert_eq!(stats.update(unit), Some(unit));
                    assert_eq!(stats.len(), 0);
                    continue;
                }
                want = Some(model.remove(0));
            }
            match model.iter().position(|bar| bar.time >= unit.time) {
                Some(i) if model[i].time == unit.time => model[i] = unit,
                Some(i) => model.insert(i, unit),
                None => model.push(unit),
            }
            assert_eq!(stats.update(unit), want);
            assert_eq!(stats.snapshot(), model);
            assert_eq!(stats.len(), model.len());
            assert!(stats.len() <= capacity);
        }
    }
}
