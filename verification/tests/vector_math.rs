use boids::fixed::{isqrt_ceil, saturate_to_limit, LIMIT, SCALE};
use boids::neighbours::mean_of;
use boids::vector::{vec2_to_vec3, vec3_to_vec2, Vec2, Vec3};

const U: i64 = 1_000_000;

#[test]
fn one_unit_is_a_million() {
    assert_eq!(SCALE, 1_000_000);
    assert_eq!(LIMIT, 1_000_000 * SCALE);
}

#[test]
fn square_root_rounds_up() {
    assert_eq!(isqrt_ceil(0), 0);
    assert_eq!(isqrt_ceil(1), 1);
    assert_eq!(isqrt_ceil(2), 2);
    assert_eq!(isqrt_ceil(3), 2);
    assert_eq!(isqrt_ceil(4), 2);
    assert_eq!(isqrt_ceil(5), 3);
    assert_eq!(isqrt_ceil(1_000_000_000_000), 1_000_000);
    assert_eq!(isqrt_ceil(1_000_000_000_001), 1_000_001);
    assert_eq!(isqrt_ceil(2_000_000_000_000), 1_414_214);
}

#[test]
fn square_root_of_the_largest_number() {
    assert_eq!(isqrt_ceil(u128::MAX), 1u128 << 64);
    let below = (1u128 << 64) - 1;
    assert_eq!(isqrt_ceil(below * below), below);
    assert_eq!(isqrt_ceil(below * below + 1), 1u128 << 64);
}

#[test]
fn saturation_stops_at_the_limit() {
    assert_eq!(saturate_to_limit(0), 0);
    assert_eq!(saturate_to_limit(LIMIT as i128), LIMIT);
    assert_eq!(saturate_to_limit(LIMIT as i128 + 1), LIMIT);
    assert_eq!(saturate_to_limit(-(LIMIT as i128) - 1), -LIMIT);
    assert_eq!(saturate_to_limit(i128::MAX), LIMIT);
    assert_eq!(saturate_to_limit(i128::MIN), -LIMIT);
    assert_eq!(saturate_to_limit(-17), -17);
}

#[test]
fn sum_and_difference() {
    let a = Vec2::new(3 * U, -4 * U);
    let b = Vec2::new(-U, 6 * U);
    assert_eq!(a.plus(b), Vec2::new(2 * U, 2 * U));
    assert_eq!(a.minus(b), Vec2::new(4 * U, -10 * U));
    assert_eq!(a.plus(Vec2::zero()), a);
    assert_eq!(Vec2::zero(), Vec2 { x: 0, y: 0 });
}

#[test]
fn squared_length_and_distance() {
    assert_eq!(Vec2::new(3, 4).length_squared(), 25);
    assert_eq!(Vec2::new(-3, 4).length_squared(), 25);
    assert_eq!(Vec2::new(0, 0).length_squared(), 0);
    assert_eq!(Vec2::new(i64::MIN, i64::MIN).length_squared(), 1u128 << 127);
    assert_eq!(Vec2::new(1, 1).distance_squared(Vec2::new(4, 5)), 25);
    assert_eq!(Vec2::new(4, 5).distance_squared(Vec2::new(1, 1)), 25);
}

#[test]
fn weight_multiplies_in_fixed_point() {
    assert_eq!(Vec2::new(3 * U, -U).times(500_000), Vec2::new(1_500_000, -500_000));
    assert_eq!(Vec2::new(10 * U, 0).times(5_600_000), Vec2::new(56 * U, 0));
    assert_eq!(Vec2::new(7, -7).times(U), Vec2::new(7, -7));
}

#[test]
fn weight_rounds_toward_zero() {
    assert_eq!(Vec2::new(1, -1).times(500_000), Vec2::new(0, 0));
    assert_eq!(Vec2::new(3, -3).times(500_000), Vec2::new(1, -1));
    assert_eq!(Vec2::new(-5, 5).times(700_000), Vec2::new(-3, 3));
}

#[test]
fn rescaling_keeps_the_direction() {
    assert_eq!(Vec2::new(3 * U, 4 * U).scaled_to(10 * U), Vec2::new(6 * U, 8 * U));
    assert_eq!(Vec2::new(300 * U, 400 * U).scaled_to(100 * U), Vec2::new(60 * U, 80 * U));
    assert_eq!(Vec2::new(-5, 0).scaled_to(U), Vec2::new(-U, 0));
    assert_eq!(Vec2::new(0, 7).scaled_to(3), Vec2::new(0, 3));
}

#[test]
fn rescaling_the_null_vector_gives_the_null_vector() {
    assert_eq!(Vec2::zero().scaled_to(100 * U), Vec2::zero());
    assert_eq!(Vec2::zero().scaled_to(0), Vec2::zero());
}

#[test]
fn rescaling_to_no_length_gives_the_null_vector() {
    assert_eq!(Vec2::new(3 * U, 4 * U).scaled_to(0), Vec2::zero());
}

#[test]
fn rescaling_rounds_toward_zero() {
    assert_eq!(Vec2::new(U, U).scaled_to(U), Vec2::new(707_106, 707_106));
    assert_eq!(Vec2::new(-U, U).scaled_to(U), Vec2::new(-707_106, 707_106));
    assert_eq!(Vec2::new(1, 1).scaled_to(U), Vec2::new(500_000, 500_000));
}

#[test]
fn rescaling_never_exceeds_the_length() {
    let len: i64 = 100 * U;
    let mut x: i64 = -1_000;
    while x <= 1_000 {
        let mut y: i64 = -1_000;
        while y <= 1_000 {
            let r = Vec2::new(x * 997, y * 1_013).scaled_to(len);
            assert!(r.length_squared() <= (len as u128) * (len as u128));
            if x != 0 || y != 0 {
                assert!(r.length_squared() * 100 >= (len as u128) * (len as u128) * 99);
            }
            y += 125;
        }
        x += 125;
    }
}

#[test]
fn rescaling_works_at_the_ends_of_the_integers() {
    let r = Vec2::new(i64::MIN, i64::MAX).scaled_to(i64::MAX);
    assert!(r.x < 0 && r.y > 0);
    assert!(r.length_squared() <= (i64::MAX as u128) * (i64::MAX as u128));
}

#[test]
fn mean_rounds_toward_zero() {
    assert_eq!(mean_of(-3, 3, 2, LIMIT), Vec2::new(-1, 1));
    assert_eq!(mean_of(10, -10, 3, LIMIT), Vec2::new(3, -3));
    assert_eq!(mean_of(6 * U as i128, 0, 3, LIMIT), Vec2::new(2 * U, 0));
}

#[test]
fn plane_part_of_a_space_vector() {
    assert_eq!(vec3_to_vec2(Vec3 { x: 1, y: 2, z: 3 }), Vec2 { x: 1, y: 2 });
}

#[test]
fn space_vector_over_a_plane_vector() {
    assert_eq!(vec2_to_vec3(Vec2 { x: 1, y: 2 }, Some(5)), Vec3 { x: 1, y: 2, z: 5 });
    assert_eq!(vec2_to_vec3(Vec2 { x: 1, y: 2 }, None), Vec3 { x: 1, y: 2, z: 0 });
}
