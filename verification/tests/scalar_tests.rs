use simulation::geometry::{distance, Point2};
use simulation::scalar::{
    clamp, copy_of, isqrt, rem_floor, wrap, wrap_angle, FRAC_PI_2, FRAC_PI_4, ONE, PI, TWO_PI,
};

#[test]
fn wrap_keeps_what_is_inside() {
    assert_eq!(wrap(0, 0, ONE), 0);
    assert_eq!(wrap(250_000, 0, ONE), 250_000);
    assert_eq!(wrap(ONE - 1, 0, ONE), ONE - 1);
}

#[test]
fn wrap_brings_back_what_left_at_the_top() {
    assert_eq!(wrap(ONE, 0, ONE), 0);
    assert_eq!(wrap(ONE + 1, 0, ONE), 1);
    assert_eq!(wrap(3 * ONE + 500_000, 0, ONE), 500_000);
}

#[test]
fn wrap_brings_back_what_left_at_the_bottom() {
    assert_eq!(wrap(-1, 0, ONE), ONE - 1);
    assert_eq!(wrap(-ONE, 0, ONE), 0);
    assert_eq!(wrap(-2 * ONE - 250_000, 0, ONE), 750_000);
}

#[test]
fn wrap_result_is_in_the_unit_interval() {
    let samples: [i64; 9] =
        [i64::MIN, i64::MIN + 1, -ONE - 1, -1, 0, 1, ONE, i64::MAX - 1, i64::MAX];
    for value in samples {
        let wrapped = wrap(value, 0, ONE);
        assert!(0 <= wrapped && wrapped < ONE, "{} wrapped to {}", value, wrapped);
        assert_eq!(wrapped, value.rem_euclid(ONE));
    }
}

#[test]
fn wrap_takes_any_interval() {
    assert_eq!(wrap(7, 2, 5), 4);
    assert_eq!(wrap(1, 2, 5), 4);
    assert_eq!(wrap(5, 2, 5), 2);
    assert_eq!(wrap(-10, -3, 3), 2);
    assert_eq!(wrap(i64::MAX, i64::MIN, i64::MAX), i64::MIN);
}

#[test]
fn wrap_angle_keeps_half_turn_and_drops_its_negative() {
    assert_eq!(wrap_angle(PI as i128), PI);
    assert_eq!(wrap_angle(-PI as i128), PI);
    assert_eq!(wrap_angle((PI + 1) as i128), -PI + 1);
    assert_eq!(wrap_angle((-PI + 1) as i128), -PI + 1);
    assert_eq!(wrap_angle(0), 0);
    assert_eq!(wrap_angle(TWO_PI as i128), 0);
    assert_eq!(wrap_angle(3 * TWO_PI as i128 + 5), 5);
    assert_eq!(wrap_angle(-(TWO_PI as i128) - 7), -7);
}

#[test]
fn angles_agree_with_each_other() {
    assert_eq!(TWO_PI, 2 * PI);
    assert_eq!(FRAC_PI_2, 1_570_796);
    assert_eq!(FRAC_PI_4, 785_398);
    assert_eq!(ONE, 1_000_000);
}

#[test]
fn rem_floor_is_never_negative() {
    assert_eq!(rem_floor(7, 5), 2);
    assert_eq!(rem_floor(-7, 5), 3);
    assert_eq!(rem_floor(-5, 5), 0);
    assert_eq!(rem_floor(-1, 5), 4);
    assert_eq!(rem_floor(0, 5), 0);
    assert_eq!(rem_floor(i128::MIN + 1, 2), 1);
}

#[test]
fn clamp_limits_on_both_sides() {
    assert_eq!(clamp(5, 0, 10), 5);
    assert_eq!(clamp(-5, 0, 10), 0);
    assert_eq!(clamp(15, 0, 10), 10);
    assert_eq!(clamp(0, 0, 10), 0);
    assert_eq!(clamp(10, 0, 10), 10);
    assert_eq!(clamp(i64::MIN, -3, -3), -3);
}

#[test]
fn isqrt_rounds_down() {
    assert_eq!(isqrt(0), 0);
    assert_eq!(isqrt(1), 1);
    assert_eq!(isqrt(3), 1);
    assert_eq!(isqrt(4), 2);
    assert_eq!(isqrt(99), 9);
    assert_eq!(isqrt(100), 10);
    assert_eq!(isqrt(250_000_000_000), 500_000);
    assert_eq!(isqrt(249_999_999_999), 499_999);
    assert_eq!(isqrt(u64::MAX), 4_294_967_295);
}

#[test]
fn copy_of_copies() {
    let values: Vec<i64> = vec![3, -1, 4, -1, 5];
    assert_eq!(copy_of(&values), values);
    assert_eq!(copy_of(&Vec::new()), Vec::<i64>::new());
}

#[test]
fn distance_of_a_right_triangle() {
    let a = Point2::new(100_000, 100_000);
    let b = Point2::new(400_000, 500_000);
    assert_eq!(distance(&a, &b), 500_000);
    assert_eq!(distance(&b, &a), 500_000);
    assert_eq!(distance(&a, &a), 0);
}

#[test]
fn distance_rounds_down() {
    let a = Point2::new(0, 0);
    let b = Point2::new(1, 1);
    assert_eq!(distance(&a, &b), 1);
    let c = Point2::new(ONE - 1, ONE - 1);
    assert_eq!(distance(&a, &c), 1_414_212);
}
