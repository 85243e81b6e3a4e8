//! The steering rules: each rule names a target velocity and answers with a
//! force of fixed magnitude that turns the agent toward it.

use crate::components::{Boid, Kinematic2D, Transform};
use crate::fixed::{lemma_mul_bound, LIMIT, SCALE};
use crate::neighbours::{
    all_wf, mean_of, position_sum, sum_of_positions, sum_of_velocities, velocity_sum,
};
use crate::vector::{lemma_scaled_to_norm, lemma_times_bound, vec3_to_vec2, MathVec2, Vec2};
use vstd::prelude::*;

verus! {

/// Weight of the alignment force.
pub const ALIGNMENT_FORCE: i64 = 5_600_000;

/// Weight of the cohesion force.
pub const COHESION_FORCE: i64 = 600_000;

/// Weight of the separation force.
pub const SEPARATION_FORCE: i64 = 600_000;

/// Magnitude of a steering force before it is weighted.
pub const STEER_FORCE: i64 = 5_000_000;

/// The force that turns `velocity` toward `target`: their difference,
/// rescaled to the steering magnitude.
pub open spec fn steer_rule(target: MathVec2, velocity: MathVec2) -> MathVec2 {
    target.minus(velocity).scaled_to(STEER_FORCE as int)
}

/// Alignment: steer toward the mean velocity of the neighbours, taken at
/// full speed. No neighbours, no force.
pub open spec fn alignment_rule(k: Kinematic2D, ns: Seq<(&Transform, &Kinematic2D)>) -> MathVec2 {
    if ns.len() == 0 {
        MathVec2::zero()
    } else {
        let mean = velocity_sum(ns).div_count(ns.len() as int);
        let target = mean.scaled_to(k.move_speed as int);
        steer_rule(target, k.velocity@).times(ALIGNMENT_FORCE as int)
    }
}

/// Cohesion: steer at full speed toward the centroid of the neighbours. No
/// neighbours, no force.
pub open spec fn cohesion_rule(t: Transform, k: Kinematic2D, ns: Seq<(&Transform, &Kinematic2D)>)
    -> MathVec2 {
    if ns.len() == 0 {
        MathVec2::zero()
    } else {
        let centroid = position_sum(ns).div_count(ns.len() as int);
        let target = centroid.minus(t.position()).scaled_to(k.move_speed as int);
        steer_rule(target, k.velocity@).times(COHESION_FORCE as int)
    }
}

/// Whether `other` is closer to `here` than half of `radius`.
pub open spec fn crowds(here: MathVec2, radius: int, other: MathVec2) -> bool {
    4 * here.minus(other).norm_sq() < radius * radius
}

/// Number of neighbours closer than half of `radius`.
pub open spec fn crowd_count(here: MathVec2, radius: int, ns: Seq<(&Transform, &Kinematic2D)>)
    -> int
    decreases ns.len(),
{
    if ns.len() == 0 {
        0
    } else if crowds(here, radius, ns.last().0.position()) {
        crowd_count(here, radius, ns.drop_last()) + 1
    } else {
        crowd_count(here, radius, ns.drop_last())
    }
}

/// Sum, over the neighbours closer than half of `radius`, of the unit vector
/// that points away from the neighbour.
pub open spec fn repulsion_sum(here: MathVec2, radius: int, ns: Seq<(&Transform, &Kinematic2D)>)
    -> MathVec2
    decreases ns.len(),
{
    if ns.len() == 0 {
        MathVec2::zero()
    } else if crowds(here, radius, ns.last().0.position()) {
        repulsion_sum(here, radius, ns.drop_last()).plus(
            here.minus(ns.last().0.position()).scaled_to(SCALE as int),
        )
    } else {
        repulsion_sum(here, radius, ns.drop_last())
    }
}

/// Separation: steer at full speed along the mean of the unit vectors that
/// point away from the neighbours closer than half the perception radius.
/// No such neighbour, no force.
pub open spec fn separation_rule(
    t: Transform,
    k: Kinematic2D,
    b: Boid,
    ns: Seq<(&Transform, &Kinematic2D)>,
) -> MathVec2 {
    let here = t.position();
    let radius = b.perception_radius as int;
    let crowd = crowd_count(here, radius, ns);
    if crowd == 0 {
        MathVec2::zero()
    } else {
        let mean = repulsion_sum(here, radius, ns).div_count(crowd);
        let target = mean.scaled_to(k.move_speed as int);
        steer_rule(target, k.velocity@).times(SEPARATION_FORCE as int)
    }
}

/// A weighted steering force is bounded by the steering magnitude times the
/// weight, whatever the target and the velocity.
pub proof fn lemma_steer_bound(target: MathVec2, velocity: MathVec2, weight: int, most: int)
    requires
        0 <= weight,
        0 <= most,
        STEER_FORCE * weight <= most * SCALE,
    ensures
        steer_rule(target, velocity).times(weight).bounded(most),
{
    lemma_scaled_to_norm(target.minus(velocity), STEER_FORCE as int);
    lemma_times_bound(steer_rule(target, velocity), weight, STEER_FORCE as int, most);
}

/// The three steering forces are bounded by their weights, for any agent and
/// any neighbours.
pub proof fn lemma_rules_bounded(
    t: Transform,
    k: Kinematic2D,
    b: Boid,
    ns: Seq<(&Transform, &Kinematic2D)>,
)
    ensures
        alignment_rule(k, ns).bounded(28_000_000),
        cohesion_rule(t, k, ns).bounded(3_000_000),
        separation_rule(t, k, b, ns).bounded(3_000_000),
{
    if ns.len() != 0 {
        let mean = velocity_sum(ns).div_count(ns.len() as int);
        lemma_steer_bound(
            mean.scaled_to(k.move_speed as int),
            k.velocity@,
            ALIGNMENT_FORCE as int,
            28_000_000,
        );
        let centroid = position_sum(ns).div_count(ns.len() as int);
        lemma_steer_bound(
            centroid.minus(t.position()).scaled_to(k.move_speed as int),
            k.velocity@,
            COHESION_FORCE as int,
            3_000_000,
        );
    }
    let crowd = crowd_count(t.position(), b.perception_radius as int, ns);
    if crowd != 0 {
        let mean = repulsion_sum(t.position(), b.perception_radius as int, ns).div_count(crowd);
        lemma_steer_bound(
            mean.scaled_to(k.move_speed as int),
            k.velocity@,
            SEPARATION_FORCE as int,
            3_000_000,
        );
    }
}

/// Turns a target velocity into a force of the steering magnitude.
pub fn steer(target: Vec2, velocity: Vec2) -> (r: Vec2)
    requires
        target@.minus(velocity@).fits(),
    ensures
        r@ == steer_rule(target@, velocity@),
        r@.bounded(STEER_FORCE as int),
{
    target.minus(velocity).scaled_to(STEER_FORCE)
}

/// Steers toward a target direction at full speed and weights the force.
fn weighted_steer(direction: Vec2, kinematic: &Kinematic2D, weight: i64, most: i64) -> (r: Vec2)
    requires
        kinematic.wf(),
        0 <= weight,
        0 <= most,
        STEER_FORCE * weight <= most * SCALE,
    ensures
        r@ == steer_rule(direction@.scaled_to(kinematic.move_speed as int), kinematic.velocity@).times(
            weight as int,
        ),
        r@.bounded(most as int),
{
    let target = direction.scaled_to(kinematic.move_speed);
    let force = steer(target, kinematic.velocity);
    proof {
        lemma_times_bound(force@, weight as int, STEER_FORCE as int, most as int);
    }
    force.times(weight)
}

/// The alignment force on `boid` from its neighbours.
pub fn alignment(boid: (&Transform, &Kinematic2D), neighbours: &Vec<(&Transform, &Kinematic2D)>) -> (r:
    Vec2)
    requires
        boid.1.wf(),
        all_wf(neighbours@),
    ensures
        r@ == alignment_rule(*boid.1, neighbours@),
        neighbours@.len() == 0 ==> r@ == MathVec2::zero(),
        r@.bounded(28_000_000),
{
    if neighbours.is_empty() {
        return Vec2::zero();
    }
    let (sx, sy) = sum_of_velocities(neighbours);
    let mean = mean_of(sx, sy, neighbours.len(), LIMIT);
    weighted_steer(mean, boid.1, ALIGNMENT_FORCE, 28_000_000)
}

/// The cohesion force on `boid` from its neighbours.
pub fn cohesion(boid: (&Transform, &Kinematic2D), neighbours: &Vec<(&Transform, &Kinematic2D)>) -> (r:
    Vec2)
    requires
        boid.0.wf(),
        boid.1.wf(),
        all_wf(neighbours@),
    ensures
        r@ == cohesion_rule(*boid.0, *boid.1, neighbours@),
        neighbours@.len() == 0 ==> r@ == MathVec2::zero(),
        r@.bounded(3_000_000),
{
    if neighbours.is_empty() {
        return Vec2::zero();
    }
    let (sx, sy) = sum_of_positions(neighbours);
    let centroid = mean_of(sx, sy, neighbours.len(), LIMIT);
    let toward = centroid.minus(vec3_to_vec2(boid.0.translation));
    weighted_steer(toward, boid.1, COHESION_FORCE, 3_000_000)
}

/// The separation force on `boid` from its neighbours.
pub fn separation(
    boid: (&Transform, &Kinematic2D, &Boid),
    neighbours: &Vec<(&Transform, &Kinematic2D)>,
) -> (r: Vec2)
    requires
        boid.0.wf(),
        boid.1.wf(),
        boid.2.wf(),
        all_wf(neighbours@),
    ensures
        r@ == separation_rule(*boid.0, *boid.1, *boid.2, neighbours@),
        neighbours@.len() == 0 ==> r@ == MathVec2::zero(),
        r@.bounded(3_000_000),
{
    if neighbours.is_empty() {
        return Vec2::zero();
    }
    let pos = vec3_to_vec2(boid.0.translation);
    let radius: u128 = boid.2.perception_radius as u128;
    proof {
        lemma_mul_bound(radius as int, radius as int, LIMIT as int, LIMIT as int);
    }
    let reach: u128 = radius * radius;
    let mut sx: i128 = 0;
    let mut sy: i128 = 0;
    let mut total: usize = 0;
    let mut i: usize = 0;
    while i < neighbours.len()
        invariant
            i <= neighbours.len(),
            all_wf(neighbours@),
            pos.in_range(),
            pos@ == boid.0.position(),
            reach == boid.2.perception_radius * boid.2.perception_radius,
            total <= i,
            total == crowd_count(pos@, boid.2.perception_radius as int, neighbours@.take(i as int)),
            (MathVec2 { x: sx as int, y: sy as int }) == repulsion_sum(
                pos@,
                boid.2.perception_radius as int,
                neighbours@.take(i as int),
            ),
            (MathVec2 { x: sx as int, y: sy as int }).bounded(total * SCALE),
        decreases neighbours.len() - i,
    {
        assert(neighbours@.take(i + 1).drop_last() =~= neighbours@.take(i as int));
        let neighbour_pos = vec3_to_vec2(neighbours[i].0.translation);
        let dist2 = pos.distance_squared(neighbour_pos);
        proof {
            lemma_mul_bound(pos.x - neighbour_pos.x, pos.x - neighbour_pos.x, 2 * LIMIT, 2 * LIMIT);
            lemma_mul_bound(pos.y - neighbour_pos.y, pos.y - neighbour_pos.y, 2 * LIMIT, 2 * LIMIT);
        }
        if 4 * dist2 < reach {
            let away = pos.minus(neighbour_pos).scaled_to(SCALE);
            sx = sx + away.x as i128;
            sy = sy + away.y as i128;
            total = total + 1;
        }
        i = i + 1;
    }
    assert(neighbours@.take(neighbours.len() as int) =~= neighbours@);
    if total == 0 {
        return Vec2::zero();
    }
    let mean = mean_of(sx, sy, total, SCALE);
    weighted_steer(mean, boid.1, SEPARATION_FORCE, 3_000_000)
}

} // verus!
