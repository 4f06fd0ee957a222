use raycaster::fixed::{
    clamp, div_floor, isqrt, mod_floor, mul_fixed, to_index, EPSILON, HALF_PI, MAX_DISTANCE,
    ONE, PI, PROJECTION_DISTANCE, TWO_PI,
};

#[test]
fn constants_have_their_values() {
    assert_eq!(ONE, 10_000);
    assert_eq!(EPSILON, 5);
    assert_eq!(MAX_DISTANCE, 100_000_000);
    assert_eq!(PROJECTION_DISTANCE, 700_000);
    assert_eq!(2 * HALF_PI, PI);
    assert_eq!(2 * PI, TWO_PI);
    assert_eq!(PI, 31_416);
}

#[test]
fn div_floor_rounds_toward_negative_infinity() {
    assert_eq!(div_floor(7, 2), 3);
    assert_eq!(div_floor(-7, 2), -4);
    assert_eq!(div_floor(-8, 2), -4);
    assert_eq!(div_floor(-1, 10_000), -1);
    assert_eq!(div_floor(0, 3), 0);
    assert_eq!(div_floor(i128::MIN, 1), i128::MIN);
}

#[test]
fn mod_floor_is_never_negative() {
    assert_eq!(mod_floor(7, 3), 1);
    assert_eq!(mod_floor(-7, 3), 2);
    assert_eq!(mod_floor(-9, 3), 0);
    assert_eq!(mod_floor(-1, 62_832), 62_831);
    assert_eq!(mod_floor(i128::MIN, 7), (i128::MIN).rem_euclid(7));
}

#[test]
fn mul_fixed_multiplies_and_rounds_down() {
    assert_eq!(mul_fixed(15_000, 20_000), 30_000);
    assert_eq!(mul_fixed(1, 1), 0);
    assert_eq!(mul_fixed(-1, 1), -1);
    assert_eq!(mul_fixed(-15_000, 5_000), -7_500);
    assert_eq!(mul_fixed(3, 3_333), 0);
    assert_eq!(mul_fixed(i64::MAX, ONE), i64::MAX);
}

#[test]
fn isqrt_is_the_floor_of_the_root() {
    assert_eq!(isqrt(0), 0);
    assert_eq!(isqrt(1), 1);
    assert_eq!(isqrt(24), 4);
    assert_eq!(isqrt(25), 5);
    assert_eq!(isqrt(26), 5);
    assert_eq!(isqrt(1_000_000_000_000), 1_000_000);
    assert_eq!(isqrt(u64::MAX), 4_294_967_295);
}

#[test]
fn clamp_and_to_index() {
    assert_eq!(clamp(5, 0, 3), 3);
    assert_eq!(clamp(-5, 0, 3), 0);
    assert_eq!(clamp(2, 0, 3), 2);
    assert_eq!(to_index(-1), usize::MAX);
    assert_eq!(to_index(0), 0);
    assert_eq!(to_index(12), 12);
    assert_eq!(to_index(i128::MAX), usize::MAX);
}
