use boids::boid_rules;
use boids::components::{Boid, Kinematic2D, Transform};
use boids::flocking_rules;
use boids::vector::{Vec2, Vec3};

const M: i64 = 1_000_000;

fn place(x: i64, y: i64) -> Transform {
    Transform {
        translation: Vec3 { x, y, z: 0 },
        heading: Vec2 { x: M, y: 0 },
        scale: Vec3 { x: 20 * M, y: 20 * M, z: 20 * M },
    }
}

fn motion(vx: i64, vy: i64) -> Kinematic2D {
    Kinematic2D {
        move_speed: 100 * M,
        acceleration: Vec2 { x: 0, y: 0 },
        velocity: Vec2 { x: vx, y: vy },
    }
}

fn senses(radius: i64) -> Boid {
    Boid { perception_radius: radius, separation_distance: radius / 2 }
}

#[test]
fn steering_weights() {
    assert_eq!(flocking_rules::ALIGNMENT_FORCE, 5_600_000);
    assert_eq!(flocking_rules::COHESION_FORCE, 600_000);
    assert_eq!(flocking_rules::SEPARATION_FORCE, 600_000);
    assert_eq!(flocking_rules::STEER_FORCE, 5_000_000);
}

#[test]
fn velocity_weights() {
    assert_eq!(boid_rules::ALIGNMENT_COEF, 500_000);
    assert_eq!(boid_rules::COHERE_COEF, 700_000);
    assert_eq!(boid_rules::SEPERATE_COEF, 1_000_000);
    assert_eq!(boid_rules::ACCELERATION_BLEND, 100_000);
}

#[test]
fn steer_has_the_steering_magnitude() {
    assert_eq!(flocking_rules::steer(Vec2::new(10 * M, 0), Vec2::zero()), Vec2::new(5 * M, 0));
    assert_eq!(
        flocking_rules::steer(Vec2::new(0, 0), Vec2::new(30 * M, 40 * M)),
        Vec2::new(-3 * M, -4 * M)
    );
}

#[test]
fn steer_toward_the_current_velocity_is_null() {
    let v = Vec2::new(12 * M, -7 * M);
    assert_eq!(flocking_rules::steer(v, v), Vec2::zero());
}

#[test]
fn two_agents_with_opposite_velocities_align_to_no_net_change() {
    let (ta, ka) = (place(0, 0), motion(M, 0));
    let (tb, kb) = (place(10 * M, 0), motion(-M, 0));
    let seen_by_a = vec![(&tb, &kb)];
    let seen_by_b = vec![(&ta, &ka)];

    let a = boid_rules::alignment((&ta, &ka), &seen_by_a);
    let b = boid_rules::alignment((&tb, &kb), &seen_by_b);
    assert_eq!(a, Vec2::new(-500_000, 0));
    assert_eq!(b, Vec2::new(500_000, 0));
    assert_eq!(a.plus(b), Vec2::zero());

    let a = flocking_rules::alignment((&ta, &ka), &seen_by_a);
    let b = flocking_rules::alignment((&tb, &kb), &seen_by_b);
    assert_eq!(a, Vec2::new(-28 * M, 0));
    assert_eq!(b, Vec2::new(28 * M, 0));
    assert_eq!(a.plus(b), Vec2::zero());
}

#[test]
fn neighbours_with_cancelling_velocities_give_no_velocity_alignment() {
    let (t, k) = (place(0, 0), motion(0, 50 * M));
    let (t1, k1) = (place(10 * M, 0), motion(M, 0));
    let (t2, k2) = (place(0, 10 * M), motion(-M, 0));
    let seen = vec![(&t1, &k1), (&t2, &k2)];
    assert_eq!(boid_rules::alignment((&t, &k), &seen), Vec2::zero());
}

#[test]
fn alignment_without_neighbours_is_null() {
    let (t, k) = (place(5 * M, 5 * M), motion(60 * M, 80 * M));
    let nobody: Vec<(&Transform, &Kinematic2D)> = Vec::new();
    assert_eq!(flocking_rules::alignment((&t, &k), &nobody), Vec2::zero());
    assert_eq!(boid_rules::alignment((&t, &k), &nobody), Vec2::zero());
}

#[test]
fn cohesion_without_neighbours_is_null() {
    let (t, k) = (place(5 * M, 5 * M), motion(60 * M, 80 * M));
    let nobody: Vec<(&Transform, &Kinematic2D)> = Vec::new();
    assert_eq!(flocking_rules::cohesion((&t, &k), &nobody), Vec2::zero());
    assert_eq!(boid_rules::cohere((&t, &k), &nobody), Vec2::zero());
}

#[test]
fn separation_without_neighbours_is_null() {
    let (t, k, b) = (place(5 * M, 5 * M), motion(60 * M, 80 * M), senses(50 * M));
    let nobody: Vec<(&Transform, &Kinematic2D)> = Vec::new();
    assert_eq!(flocking_rules::separation((&t, &k, &b), &nobody), Vec2::zero());
    assert_eq!(boid_rules::seperate((&t, &k, &b), &nobody), Vec2::zero());
}

#[test]
fn steering_alignment_follows_the_mean_velocity() {
    let (t, k) = (place(0, 0), motion(0, 0));
    let (t1, k1) = (place(M, 0), motion(0, 10 * M));
    let (t2, k2) = (place(0, M), motion(0, 30 * M));
    let seen = vec![(&t1, &k1), (&t2, &k2)];
    assert_eq!(flocking_rules::alignment((&t, &k), &seen), Vec2::new(0, 28 * M));
}

#[test]
fn velocity_alignment_is_half_the_mean_velocity() {
    let (t, k) = (place(0, 0), motion(0, 0));
    let (t1, k1) = (place(M, 0), motion(4 * M, 10 * M));
    let (t2, k2) = (place(0, M), motion(-2 * M, 30 * M));
    let seen = vec![(&t1, &k1), (&t2, &k2)];
    assert_eq!(boid_rules::alignment((&t, &k), &seen), Vec2::new(500_000, 10 * M));
}

#[test]
fn steering_cohesion_pulls_toward_the_centroid() {
    let (t, k) = (place(0, 0), motion(M, 0));
    let (t1, k1) = (place(10 * M, 0), motion(-M, 0));
    let seen = vec![(&t1, &k1)];
    assert_eq!(flocking_rules::cohesion((&t, &k), &seen), Vec2::new(3 * M, 0));

    let (t2, k2) = (place(-10 * M, 40 * M), motion(0, 0));
    let seen = vec![(&t1, &k1), (&t2, &k2)];
    let still = motion(0, 0);
    assert_eq!(flocking_rules::cohesion((&t, &still), &seen), Vec2::new(0, 3 * M));
}

#[test]
fn velocity_cohesion_is_the_weighted_way_to_the_centroid() {
    let (t, k) = (place(0, 0), motion(0, 0));
    let (t1, k1) = (place(10 * M, 0), motion(0, 0));
    let (t2, k2) = (place(20 * M, -4 * M), motion(0, 0));
    let seen = vec![(&t1, &k1), (&t2, &k2)];
    assert_eq!(boid_rules::cohere((&t, &k), &seen), Vec2::new(10_500_000, -1_400_000));

    let off = place(5 * M, 2 * M);
    assert_eq!(boid_rules::cohere((&off, &k), &seen), Vec2::new(7 * M, -2_800_000));
}

#[test]
fn steering_separation_pushes_away_from_a_close_neighbour() {
    let (t, k, b) = (place(0, 0), motion(M, 0), senses(50 * M));
    let (t1, k1) = (place(10 * M, 0), motion(-M, 0));
    let seen = vec![(&t1, &k1)];
    assert_eq!(flocking_rules::separation((&t, &k, &b), &seen), Vec2::new(-3 * M, 0));
}

#[test]
fn steering_separation_ignores_neighbours_beyond_half_the_radius() {
    let (t, k, b) = (place(0, 0), motion(M, 0), senses(50 * M));
    let (t1, k1) = (place(30 * M, 0), motion(-M, 0));
    let (t2, k2) = (place(0, 25 * M), motion(0, 0));
    let seen = vec![(&t1, &k1), (&t2, &k2)];
    assert_eq!(flocking_rules::separation((&t, &k, &b), &seen), Vec2::zero());

    let (t3, k3) = (place(0, 25 * M - 1), motion(0, 0));
    let seen = vec![(&t1, &k1), (&t3, &k3)];
    let still = motion(0, 0);
    assert_eq!(flocking_rules::separation((&t, &still, &b), &seen), Vec2::new(0, -3 * M));
}

#[test]
fn steering_separation_weighs_each_close_neighbour_alike() {
    let (t, k, b) = (place(0, 0), motion(0, 0), senses(50 * M));
    let (t1, k1) = (place(M, 0), motion(0, 0));
    let (t2, k2) = (place(0, 20 * M), motion(0, 0));
    let (t3, k3) = (place(40 * M, 40 * M), motion(0, 0));
    let seen = vec![(&t1, &k1), (&t2, &k2), (&t3, &k3)];
    // The unit vectors away are (-1, 0) and (0, -1), their mean (-0.5, -0.5).
    // At full speed that is 70.710649 along each axis, rounded down from the
    // rounded-up length 0.707107; the steering force along each axis is then
    // 5 * 70710649 / 99999959 = 3.535533, and its weighted value 2.121319.
    assert_eq!(
        flocking_rules::separation((&t, &k, &b), &seen),
        Vec2::new(-2_121_319, -2_121_319)
    );
}

#[test]
fn steering_separation_from_a_neighbour_at_the_same_place_is_null() {
    let (t, k, b) = (place(3 * M, 3 * M), motion(0, 0), senses(50 * M));
    let (t1, k1) = (place(3 * M, 3 * M), motion(0, 0));
    let seen = vec![(&t1, &k1)];
    assert_eq!(flocking_rules::separation((&t, &k, &b), &seen), Vec2::zero());
}

#[test]
fn velocity_separation_averages_over_the_near_neighbours_only() {
    let t = place(0, 0);
    let k = motion(0, 0);
    let b = Boid { perception_radius: 200 * M, separation_distance: 5 * M };
    let (t1, k1) = (place(3 * M, 0), motion(0, 0));
    let (t2, k2) = (place(100 * M, 0), motion(0, 0));
    let seen = vec![(&t1, &k1), (&t2, &k2)];
    assert_eq!(boid_rules::seperate((&t, &k, &b), &seen), Vec2::new(-3 * M, 0));

    let (t3, k3) = (place(-M, 4 * M), motion(0, 0));
    let seen = vec![(&t1, &k1), (&t2, &k2), (&t3, &k3)];
    assert_eq!(boid_rules::seperate((&t, &k, &b), &seen), Vec2::new(-M, -2 * M));
}

#[test]
fn velocity_separation_counts_a_neighbour_at_the_separation_distance() {
    let t = place(0, 0);
    let k = motion(0, 0);
    let b = Boid { perception_radius: 200 * M, separation_distance: 5 * M };
    let (t1, k1) = (place(3 * M, 4 * M), motion(0, 0));
    let seen = vec![(&t1, &k1)];
    assert_eq!(boid_rules::seperate((&t, &k, &b), &seen), Vec2::new(-3 * M, -4 * M));

    let (t2, k2) = (place(3 * M, 4 * M + 1), motion(0, 0));
    let seen = vec![(&t2, &k2)];
    assert_eq!(boid_rules::seperate((&t, &k, &b), &seen), Vec2::zero());
}

#[test]
fn velocity_separation_with_no_near_neighbour_is_null() {
    let t = place(0, 0);
    let k = motion(0, 0);
    let b = Boid { perception_radius: 200 * M, separation_distance: 5 * M };
    let (t1, k1) = (place(30 * M, 0), motion(0, 0));
    let seen = vec![(&t1, &k1)];
    assert_eq!(boid_rules::seperate((&t, &k, &b), &seen), Vec2::zero());
}
