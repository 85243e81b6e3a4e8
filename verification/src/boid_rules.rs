//! The velocity rules: each rule answers with a velocity change that is
//! blended into the agent's acceleration.

use crate::components::{Boid, Kinematic2D, Transform};
use crate::fixed::{lemma_mul_bound, LIMIT};
use crate::neighbours::{
    all_wf, lemma_mean_bound, lemma_position_sum_bound, lemma_velocity_sum_bound, mean_of,
    position_sum, sum_of_positions, sum_of_velocities, velocity_sum,
};
use crate::vector::{lemma_times_bound, vec3_to_vec2, MathVec2, Vec2};
use vstd::prelude::*;

verus! {

/// Weight of the alignment rule.
pub const ALIGNMENT_COEF: i64 = 500_000;

/// Weight of the cohesion rule.
pub const COHERE_COEF: i64 = 700_000;

/// Weight of the separation rule.
pub const SEPERATE_COEF: i64 = 1_000_000;

/// Share of the way from the current acceleration to the desired one that
/// one integration step takes.
pub const ACCELERATION_BLEND: i64 = 100_000;

/// Alignment: the weighted mean velocity of the neighbours. No neighbours,
/// no change.
pub open spec fn alignment_rule(ns: Seq<(&Transform, &Kinematic2D)>) -> MathVec2 {
    if ns.len() == 0 {
        MathVec2::zero()
    } else {
        velocity_sum(ns).div_count(ns.len() as int).times(ALIGNMENT_COEF as int)
    }
}

/// Cohesion: the weighted vector from the agent to the centroid of its
/// neighbours. No neighbours, no change.
pub open spec fn cohere_rule(t: Transform, ns: Seq<(&Transform, &Kinematic2D)>) -> MathVec2 {
    if ns.len() == 0 {
        MathVec2::zero()
    } else {
        position_sum(ns).div_count(ns.len() as int).minus(t.position()).times(COHERE_COEF as int)
    }
}

/// Number of neighbours within `distance` of `here`.
pub open spec fn near_count(here: MathVec2, distance: int, ns: Seq<(&Transform, &Kinematic2D)>)
    -> int
    decreases ns.len(),
{
    if ns.len() == 0 {
        0
    } else if here.within(ns.last().0.position(), distance) {
        near_count(here, distance, ns.drop_last()) + 1
    } else {
        near_count(here, distance, ns.drop_last())
    }
}

/// Sum, over the neighbours within `distance` of `here`, of the vector from
/// the neighbour to `here`.
pub open spec fn offset_sum(here: MathVec2, distance: int, ns: Seq<(&Transform, &Kinematic2D)>)
    -> MathVec2
    decreases ns.len(),
{
    if ns.len() == 0 {
        MathVec2::zero()
    } else if here.within(ns.last().0.position(), distance) {
        offset_sum(here, distance, ns.drop_last()).plus(here.minus(ns.last().0.position()))
    } else {
        offset_sum(here, distance, ns.drop_last())
    }
}

/// Separation: the weighted mean of the vectors that lead away from the
/// neighbours within the separation distance. No such neighbour, no change.
pub open spec fn seperate_rule(t: Transform, b: Boid, ns: Seq<(&Transform, &Kinematic2D)>)
    -> MathVec2 {
    let here = t.position();
    let distance = b.separation_distance as int;
    let near = near_count(here, distance, ns);
    if near == 0 {
        MathVec2::zero()
    } else {
        offset_sum(here, distance, ns).div_count(near).times(SEPERATE_COEF as int)
    }
}

/// Among well-formed neighbours of a well-formed agent, the offsets of the
/// near ones add up to at most their number times twice the storable limit.
pub proof fn lemma_offset_sum_bound(
    here: MathVec2,
    distance: int,
    ns: Seq<(&Transform, &Kinematic2D)>,
)
    requires
        here.bounded(LIMIT as int),
        all_wf(ns),
    ensures
        0 <= near_count(here, distance, ns) <= ns.len(),
        offset_sum(here, distance, ns).bounded(near_count(here, distance, ns) * 2_000_000_000_000),
    decreases ns.len(),
{
    if ns.len() > 0 {
        lemma_offset_sum_bound(here, distance, ns.drop_last());
    }
}

/// The three velocity changes are bounded, for a well-formed agent among
/// well-formed neighbours.
pub proof fn lemma_rules_bounded(t: Transform, b: Boid, ns: Seq<(&Transform, &Kinematic2D)>)
    requires
        t.wf(),
        all_wf(ns),
    ensures
        alignment_rule(ns).bounded(500_000_000_000),
        cohere_rule(t, ns).bounded(1_400_000_000_000),
        seperate_rule(t, b, ns).bounded(2_000_000_000_000),
{
    if ns.len() != 0 {
        lemma_velocity_sum_bound(ns);
        lemma_mean_bound(velocity_sum(ns), ns.len() as int, LIMIT as int);
        lemma_times_bound(
            velocity_sum(ns).div_count(ns.len() as int),
            ALIGNMENT_COEF as int,
            LIMIT as int,
            500_000_000_000,
        );
        lemma_position_sum_bound(ns);
        lemma_mean_bound(position_sum(ns), ns.len() as int, LIMIT as int);
        lemma_times_bound(
            position_sum(ns).div_count(ns.len() as int).minus(t.position()),
            COHERE_COEF as int,
            2 * LIMIT,
            1_400_000_000_000,
        );
    }
    let here = t.position();
    let distance = b.separation_distance as int;
    lemma_offset_sum_bound(here, distance, ns);
    let near = near_count(here, distance, ns);
    if near != 0 {
        lemma_mean_bound(offset_sum(here, distance, ns), near, 2_000_000_000_000);
        lemma_times_bound(
            offset_sum(here, distance, ns).div_count(near),
            SEPERATE_COEF as int,
            2_000_000_000_000,
            2_000_000_000_000,
        );
    }
}

/// The velocity change that aligns `_boid` with its neighbours.
pub fn alignment(_boid: (&Transform, &Kinematic2D), other_boids: &Vec<(&Transform, &Kinematic2D)>)
    -> (r: Vec2)
    requires
        all_wf(other_boids@),
    ensures
        r@ == alignment_rule(other_boids@),
        other_boids@.len() == 0 ==> r@ == MathVec2::zero(),
        r@.bounded(500_000_000_000),
{
    if other_boids.is_empty() {
        return Vec2::zero();
    }
    let (sx, sy) = sum_of_velocities(other_boids);
    let velocity = mean_of(sx, sy, other_boids.len(), LIMIT);
    proof {
        lemma_times_bound(velocity@, ALIGNMENT_COEF as int, LIMIT as int, 500_000_000_000);
    }
    velocity.times(ALIGNMENT_COEF)
}

/// The velocity change that draws `boid` toward the centroid of its
/// neighbours.
pub fn cohere(boid: (&Transform, &Kinematic2D), other_boids: &Vec<(&Transform, &Kinematic2D)>) -> (r:
    Vec2)
    requires
        boid.0.wf(),
        all_wf(other_boids@),
    ensures
        r@ == cohere_rule(*boid.0, other_boids@),
        other_boids@.len() == 0 ==> r@ == MathVec2::zero(),
        r@.bounded(1_400_000_000_000),
{
    if other_boids.is_empty() {
        return Vec2::zero();
    }
    let (sx, sy) = sum_of_positions(other_boids);
    let center_of_mass = mean_of(sx, sy, other_boids.len(), LIMIT);
    let velocity = center_of_mass.minus(vec3_to_vec2(boid.0.translation));
    proof {
        lemma_times_bound(velocity@, COHERE_COEF as int, 2 * LIMIT, 1_400_000_000_000);
    }
    velocity.times(COHERE_COEF)
}

/// The velocity change that drives `boid` away from the neighbours within
/// its separation distance.
pub fn seperate(
    boid: (&Transform, &Kinematic2D, &Boid),
    other_boids: &Vec<(&Transform, &Kinematic2D)>,
) -> (r: Vec2)
    requires
        boid.0.wf(),
        boid.2.wf(),
        all_wf(other_boids@),
    ensures
        r@ == seperate_rule(*boid.0, *boid.2, other_boids@),
        other_boids@.len() == 0 ==> r@ == MathVec2::zero(),
        r@.bounded(2_000_000_000_000),
{
    let translation = vec3_to_vec2(boid.0.translation);
    let distance: u128 = boid.2.separation_distance as u128;
    proof {
        lemma_mul_bound(distance as int, distance as int, LIMIT as int, LIMIT as int);
    }
    let reach: u128 = distance * distance;
    let mut sx: i128 = 0;
    let mut sy: i128 = 0;
    let mut total: usize = 0;
    let mut i: usize = 0;
    while i < other_boids.len()
        invariant
            i <= other_boids.len(),
            all_wf(other_boids@),
            translation.in_range(),
            translation@ == boid.0.position(),
            reach == boid.2.separation_distance * boid.2.separation_distance,
            total <= i,
            total == near_count(
                translation@,
                boid.2.separation_distance as int,
                other_boids@.take(i as int),
            ),
            (MathVec2 { x: sx as int, y: sy as int }) == offset_sum(
                translation@,
                boid.2.separation_distance as int,
                other_boids@.take(i as int),
            ),
            (MathVec2 { x: sx as int, y: sy as int }).bounded(total * 2_000_000_000_000),
        decreases other_boids.len() - i,
    {
        assert(other_boids@.take(i + 1).drop_last() =~= other_boids@.take(i as int));
        let other = vec3_to_vec2(other_boids[i].0.translation);
        if translation.distance_squared(other) <= reach {
            let away = translation.minus(other);
            sx = sx + away.x as i128;
            sy = sy + away.y as i128;
            total = total + 1;
        }
        i = i + 1;
    }
    assert(other_boids@.take(other_boids.len() as int) =~= other_boids@);
    if total == 0 {
        return Vec2::zero();
    }
    let velocity = mean_of(sx, sy, total, 2_000_000_000_000);
    proof {
        lemma_times_bound(velocity@, SEPERATE_COEF as int, 2_000_000_000_000, 2_000_000_000_000);
    }
    velocity.times(SEPERATE_COEF)
}

} // verus!
