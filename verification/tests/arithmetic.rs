use moving_stats::ohlc::{abs_gap, div_trunc};
use moving_stats::OHLC;

fn bar(values: [i64; 8]) -> OHLC {
    OHLC {
        time: values[0],
        open: values[1],
        high: values[2],
        low: values[3],
        close: values[4],
        vwap: values[5],
        volume: values[6],
        count: values[7],
    }
}

#[test]
fn zero_has_all_fields_zero() {
    assert_eq!(OHLC::new_zero(), bar([0; 8]));
}

#[test]
fn zero_is_the_additive_identity() {
    let a = bar([1, -2, 3, -4, 5, -6, 7, -8]);
    assert_eq!(a + OHLC::new_zero(), a);
    assert_eq!(OHLC::new_zero() + a, a);
    assert_eq!(a - OHLC::new_zero(), a);
}

#[test]
fn sum_is_field_by_field() {
    let a = bar([1, 2, 3, 4, 5, 6, 7, 8]);
    let b = bar([10, 20, 30, 40, 50, 60, 70, 80]);
    assert_eq!(a + b, bar([11, 22, 33, 44, 55, 66, 77, 88]));
    assert_eq!(b + a, a + b);
}

#[test]
fn difference_is_field_by_field_and_may_be_negative() {
    let a = bar([1, 2, 3, 4, 5, 6, 7, 8]);
    let b = bar([10, 20, 30, 40, 50, 60, 70, 80]);
    assert_eq!(a - b, bar([-9, -18, -27, -36, -45, -54, -63, -72]));
    assert_eq!(b - a, bar([9, 18, 27, 36, 45, 54, 63, 72]));
    assert_eq!((a + b) - a, b);
}

#[test]
fn quotient_is_field_by_field_and_rounds_toward_zero() {
    let a = bar([7, -7, 8, -8, 9, -9, 1, -1]);
    assert_eq!(a / 2, bar([3, -3, 4, -4, 4, -4, 0, 0]));
    assert_eq!(a / 1, a);
    assert_eq!(a / 10, bar([0; 8]));
}

#[test]
fn half_of_a_whole_keeps_its_fraction() {
    let a = bar([99, 99_000_000, 0, 0, 0, 0, 0, 99]);
    let half = a / 2;
    assert_eq!(half.time, 49);
    assert_eq!(half.count, 49);
    assert_eq!(half.open, 49_500_000);
}

#[test]
fn sum_wraps_at_the_bounds() {
    let a = bar([i64::MAX, i64::MIN, 0, 0, 0, 0, 0, i64::MAX]);
    let b = bar([1, -1, 0, 0, 0, 0, 0, i64::MAX]);
    let sum = a + b;
    assert_eq!(sum.time, i64::MIN);
    assert_eq!(sum.open, i64::MAX);
    assert_eq!(sum.count, -2);
    let difference = bar([i64::MIN, 0, 0, 0, 0, 0, 0, 0]) - bar([1, 0, 0, 0, 0, 0, 0, 0]);
    assert_eq!(difference.time, i64::MAX);
}

#[test]
fn truncating_division() {
    assert_eq!(div_trunc(7, 2), 3);
    assert_eq!(div_trunc(-7, 2), -3);
    assert_eq!(div_trunc(0, 5), 0);
    assert_eq!(div_trunc(i64::MIN, 1), i64::MIN);
    assert_eq!(div_trunc(i64::MAX, 1), i64::MAX);
    assert_eq!(div_trunc(i64::MIN, 2), -4_611_686_018_427_387_904);
    assert_eq!(div_trunc(4950, 100), 49);
    assert_eq!(div_trunc(4_950_000_000, 100), 49_500_000);
}

#[test]
fn division_by_a_number_beyond_the_signed_range() {
    let beyond = (i64::MAX as u64 + 1) as usize;
    if beyond as u64 == i64::MAX as u64 + 1 {
        assert_eq!(div_trunc(i64::MAX, beyond), 0);
        assert_eq!(div_trunc(-5, beyond), 0);
        assert_eq!(div_trunc(i64::MIN, beyond), -1);
        assert_eq!(div_trunc(i64::MIN, beyond + 1), 0);
        assert_eq!(div_trunc(i64::MIN, usize::MAX), 0);
    }
}

#[test]
fn gap_is_the_distance() {
    assert_eq!(abs_gap(3, 10), 7);
    assert_eq!(abs_gap(10, 3), 7);
    assert_eq!(abs_gap(-4, 4), 8);
    assert_eq!(abs_gap(5, 5), 0);
    assert_eq!(abs_gap(i64::MAX, i64::MIN), -1);
}

#[test]
fn distance_is_field_by_field() {
    let a = bar([1, 20, 3, 40, 5, 60, 7, 80]);
    let b = bar([10, 2, 30, 4, 50, 6, 70, 8]);
    assert_eq!(a.abs_diff(b), bar([9, 18, 27, 36, 45, 54, 63, 72]));
    assert_eq!(b.abs_diff(a), a.abs_diff(b));
    assert_eq!(a.abs_diff(a), OHLC::new_zero());
}
