use fall_alarm::AccelerationData;
use fall_alarm::Sample;
use fall_alarm::DATA_LENGTH;
use fall_alarm::FALL_THRESHOLD;

fn feed(d: &mut AccelerationData, xs: &[i32], ys: &[i32], zs: &[i32]) {
    for k in 0..xs.len() {
        d.add_measurement(Sample::new(xs[k], ys[k], zs[k]));
    }
}

#[test]
fn startup_sums_are_zero() {
    let d = AccelerationData::new(4);
    assert_eq!(d.sum(), (0, 0, 0));
}

#[test]
fn startup_counts_as_falling() {
    let d = AccelerationData::new(4);
    assert!(d.is_falling(FALL_THRESHOLD));
    let big = AccelerationData::default();
    assert!(big.is_falling(FALL_THRESHOLD));
}

#[test]
fn stable_handling_is_not_falling() {
    let mut d = AccelerationData::new(4);
    feed(
        &mut d,
        &[1000, 1000, 1000, 1000],
        &[1000, 1000, 1000, 1000],
        &[1000, 1000, 1000, 1000],
    );
    assert_eq!(d.sum(), (4000, 4000, 4000));
    assert!(!d.is_falling(200));
}

#[test]
fn free_fall_noise_floor_is_falling() {
    let mut d = AccelerationData::new(4);
    feed(&mut d, &[5, -3, 2, 0], &[1, 1, -2, 0], &[0, 0, 0, 0]);
    assert_eq!(d.sum(), (4, 0, 0));
    assert!(d.is_falling(200));
}

#[test]
fn warm_up_keeps_zero_slots_in_the_sums() {
    let mut d = AccelerationData::new(4);
    feed(&mut d, &[900, 1100], &[-800, -300], &[1000, 1000]);
    assert_eq!(d.sum(), (2000, -1100, 2000));
    assert!(!d.is_falling(200));
}

#[test]
fn ring_overwrite_drops_the_oldest_sample() {
    let mut d = AccelerationData::new(4);
    feed(
        &mut d,
        &[999, 1, 2, 3, 4],
        &[999, 0, 0, 0, 0],
        &[999, 0, 0, 0, 0],
    );
    assert_eq!(d.sum(), (10, 0, 0));
    assert!(d.is_falling(200));
}

#[test]
fn window_slides_over_a_long_run() {
    let mut d = AccelerationData::new(3);
    for v in 1..=10 {
        d.add_measurement(Sample::new(v, -v, 0));
    }
    assert_eq!(d.sum(), (8 + 9 + 10, -(8 + 9 + 10), 0));
}

#[test]
fn boundary_sum_is_not_falling() {
    let mut d = AccelerationData::new(4);
    feed(&mut d, &[200, 200, 200, 200], &[0, 0, 0, 0], &[0, 0, 0, 0]);
    assert_eq!(d.sum(), (800, 0, 0));
    assert!(!d.is_falling(200));
}

#[test]
fn just_below_the_boundary_is_falling() {
    let mut d = AccelerationData::new(4);
    feed(&mut d, &[199, 200, 200, 200], &[0, 0, 0, 0], &[0, 0, 0, 0]);
    assert_eq!(d.sum(), (799, 0, 0));
    assert!(d.is_falling(200));
}

#[test]
fn one_axis_at_the_limit_flips_the_result() {
    let mut d = AccelerationData::new(4);
    feed(&mut d, &[1, 1, 1, 1], &[-200, -200, -200, -200], &[0, 0, 0, 0]);
    assert_eq!(d.sum(), (4, -800, 0));
    assert!(!d.is_falling(200));
}

#[test]
fn negative_sums_use_the_magnitude() {
    let mut d = AccelerationData::new(2);
    feed(&mut d, &[-150, -100], &[10, 10], &[0, 0]);
    assert_eq!(d.sum(), (-250, 20, 0));
    assert!(d.is_falling(200));
    feed(&mut d, &[-300, -300], &[0, 0], &[0, 0]);
    assert_eq!(d.sum(), (-600, 0, 0));
    assert!(!d.is_falling(200));
}

#[test]
fn zero_threshold_never_classifies_as_falling() {
    let d = AccelerationData::new(4);
    assert!(!d.is_falling(0));
}

#[test]
fn default_window_holds_the_standard_capacity() {
    let mut d = AccelerationData::default();
    for _ in 0..DATA_LENGTH {
        d.add_measurement(Sample::new(100, 0, 0));
    }
    assert_eq!(d.sum(), (100 * DATA_LENGTH as i64, 0, 0));
    d.add_measurement(Sample::new(0, 0, 0));
    assert_eq!(d.sum(), (100 * (DATA_LENGTH as i64 - 1), 0, 0));
}
