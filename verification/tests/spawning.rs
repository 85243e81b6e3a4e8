use boids::components::{Agent, Boid, DesiredAcceleration2D, Kinematic2D, Transform};
use boids::resources::{BoidCount, BoidMaxSpeed, BoidPerceptionRadius, BoidScale};
use boids::spawn::{spawn_boids, spawn_one};
use boids::systems::Rules;
use boids::vector::{Vec2, Vec3};

const P: i64 = 1_000_000;

fn flock_of(count: u32, width: i64, height: i64, seed: u64) -> Vec<Agent> {
    spawn_boids(
        &BoidCount(count),
        &BoidScale(20 * P),
        &BoidMaxSpeed(100 * P),
        &BoidPerceptionRadius(80 * P),
        width,
        height,
        Rules::Steering,
        seed,
    )
    .agents
}

#[test]
fn spawn_one_builds_the_agent_of_the_draws() {
    let a = spawn_one(
        5 * P,
        7 * P,
        3,
        4,
        2,
        &BoidScale(20 * P),
        &BoidMaxSpeed(100 * P),
        &BoidPerceptionRadius(80 * P),
    );
    let expected = Agent {
        transform: Transform {
            translation: Vec3 { x: 5 * P, y: 7 * P, z: 2 },
            heading: Vec2 { x: P, y: 0 },
            scale: Vec3 { x: 20 * P, y: 20 * P, z: 20 * P },
        },
        kinematic: Kinematic2D {
            move_speed: 100 * P,
            acceleration: Vec2 { x: 0, y: 0 },
            velocity: Vec2 { x: 60 * P, y: 80 * P },
        },
        boid: Boid { perception_radius: 80 * P, separation_distance: 40 * P },
        desired: DesiredAcceleration2D(Vec2 { x: 0, y: 0 }),
    };
    assert_eq!(a, expected);
}

#[test]
fn spawn_one_gives_a_null_draw_a_direction() {
    let a = spawn_one(
        0,
        0,
        0,
        0,
        0,
        &BoidScale(20 * P),
        &BoidMaxSpeed(100 * P),
        &BoidPerceptionRadius(81),
    );
    assert_eq!(a.kinematic.velocity, Vec2::new(100 * P, 0));
    assert_eq!(a.boid.separation_distance, 40);
}

#[test]
fn spawn_one_moves_at_full_speed_in_every_direction() {
    let full = (100 * P as u128) * (100 * P as u128);
    let mut hx = -P;
    while hx <= P {
        let mut hy = -P;
        while hy <= P {
            let a = spawn_one(
                0,
                0,
                hx,
                hy,
                0,
                &BoidScale(0),
                &BoidMaxSpeed(100 * P),
                &BoidPerceptionRadius(0),
            );
            let speed = a.kinematic.velocity.length_squared();
            assert!(speed <= full);
            assert!(speed * 10_000 >= full * 9_999);
            hy += 62_500;
        }
        hx += 62_500;
    }
}

#[test]
fn spawn_makes_as_many_agents_as_asked() {
    assert_eq!(flock_of(0, 800 * P, 600 * P, 1).len(), 0);
    assert_eq!(flock_of(1, 800 * P, 600 * P, 1).len(), 1);
    assert_eq!(flock_of(3_000, 800 * P, 600 * P, 1).len(), 3_000);
}

#[test]
fn spawned_agents_stand_on_the_plane() {
    for a in flock_of(500, 800 * P, 600 * P, 7) {
        let p = a.transform.translation;
        assert!(0 <= p.x && p.x < 800 * P);
        assert!(0 <= p.y && p.y < 600 * P);
    }
}

#[test]
fn spawned_agents_are_spread_over_the_plane() {
    let agents = flock_of(500, 800 * P, 600 * P, 7);
    let xs: std::collections::BTreeSet<i64> =
        agents.iter().map(|a| a.transform.translation.x).collect();
    let ys: std::collections::BTreeSet<i64> =
        agents.iter().map(|a| a.transform.translation.y).collect();
    assert!(xs.len() > 400 && ys.len() > 400);
    assert!(agents.iter().any(|a| a.transform.translation.x > 400 * P));
    assert!(agents.iter().any(|a| a.transform.translation.x < 400 * P));
    assert!(agents.iter().any(|a| a.transform.translation.y > 300 * P));
    assert!(agents.iter().any(|a| a.transform.translation.y < 300 * P));
}

#[test]
fn spawned_agents_head_in_all_directions_at_full_speed() {
    let agents = flock_of(500, 800 * P, 600 * P, 11);
    let full = (100 * P as u128) * (100 * P as u128);
    for a in agents.iter() {
        let speed = a.kinematic.velocity.length_squared();
        assert!(speed <= full);
        assert!(speed * 1_000 >= full * 999);
    }
    assert!(agents.iter().any(|a| a.kinematic.velocity.x > 0 && a.kinematic.velocity.y > 0));
    assert!(agents.iter().any(|a| a.kinematic.velocity.x > 0 && a.kinematic.velocity.y < 0));
    assert!(agents.iter().any(|a| a.kinematic.velocity.x < 0 && a.kinematic.velocity.y > 0));
    assert!(agents.iter().any(|a| a.kinematic.velocity.x < 0 && a.kinematic.velocity.y < 0));
}

#[test]
fn spawned_agents_carry_the_parameters() {
    for (i, a) in flock_of(50, 800 * P, 600 * P, 3).iter().enumerate() {
        assert_eq!(a.transform.translation.z, i as i64);
        assert_eq!(a.transform.scale, Vec3 { x: 20 * P, y: 20 * P, z: 20 * P });
        assert_eq!(a.transform.heading, Vec2 { x: P, y: 0 });
        assert_eq!(a.kinematic.move_speed, 100 * P);
        assert_eq!(a.kinematic.acceleration, Vec2::zero());
        assert_eq!(a.boid, Boid { perception_radius: 80 * P, separation_distance: 40 * P });
        assert_eq!(a.desired, DesiredAcceleration2D(Vec2::zero()));
    }
}

#[test]
fn spawned_flock_runs_under_the_rules_asked_for() {
    for rules in [Rules::Steering, Rules::Velocity] {
        let flock = spawn_boids(
            &BoidCount(10),
            &BoidScale(20 * P),
            &BoidMaxSpeed(100 * P),
            &BoidPerceptionRadius(80 * P),
            800 * P,
            600 * P,
            rules,
            9,
        );
        assert_eq!(flock.rules, rules);
        assert_eq!(flock.len(), 10);
        assert!(flock.is_well_formed());
    }
}

#[test]
fn spawn_repeats_for_one_seed() {
    assert_eq!(flock_of(100, 800 * P, 600 * P, 42), flock_of(100, 800 * P, 600 * P, 42));
    assert!(flock_of(100, 800 * P, 600 * P, 42) != flock_of(100, 800 * P, 600 * P, 43));
}

#[test]
fn spawn_on_a_plane_without_extent_stands_at_the_origin() {
    for a in flock_of(20, 0, 0, 5) {
        assert_eq!(a.transform.translation.x, 0);
        assert_eq!(a.transform.translation.y, 0);
    }
    for a in flock_of(20, 1, 600 * P, 5) {
        assert_eq!(a.transform.translation.x, 0);
    }
}

#[test]
fn spawned_flock_flies() {
    for rules in [Rules::Steering, Rules::Velocity] {
        let mut flock = spawn_boids(
            &BoidCount(150),
            &BoidScale(20 * P),
            &BoidMaxSpeed(100 * P),
            &BoidPerceptionRadius(80 * P),
            800 * P,
            600 * P,
            rules,
            2024,
        );
        let start: Vec<Agent> = flock.agents.clone();
        for _ in 0..40 {
            boids::systems::step(&mut flock, 16_667, 800 * P, 600 * P);
            assert_eq!(flock.len(), 150);
            assert!(flock.is_well_formed());
            for a in flock.agents.iter() {
                assert!(a.kinematic.is_speed_bounded());
                // one frame at full speed leaves the plane by less than two units
                assert!(-12 * P <= a.transform.translation.x);
                assert!(a.transform.translation.x <= 812 * P);
                assert!(-12 * P <= a.transform.translation.y);
                assert!(a.transform.translation.y <= 612 * P);
            }
        }
        let moved = flock
            .agents
            .iter()
            .zip(start.iter())
            .filter(|(now, then)| now.transform.translation != then.transform.translation)
            .count();
        assert_eq!(moved, 150);
        for (i, a) in flock.agents.iter().enumerate() {
            assert_eq!(a.transform.translation.z, i as i64);
            assert_eq!(a.boid, start[i].boid);
        }
    }
}

#[test]
fn spawned_speed_misses_the_limit_by_rounding_only() {
    // limit 100, so at most a ten-thousandth of a unit and a few millionths
    for a in flock_of(300, 800 * P, 600 * P, 77) {
        let v = a.kinematic.velocity;
        let grown = Vec2::new(v.x.abs() + 1, v.y.abs() + 1).length_squared();
        let floor = (100 * P - 100 - 1) as u128;
        assert!(grown > floor * floor);
        assert!(v.length_squared() <= (100 * P as u128) * (100 * P as u128));
    }
}
