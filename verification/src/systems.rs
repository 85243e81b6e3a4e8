//! The phases of a frame: steering, integration and boundary wrap.

use crate::boid_rules;
use crate::boid_rules::ACCELERATION_BLEND;
use crate::components::{Agent, DesiredAcceleration2D, Kinematic2D, Transform};
use crate::fixed::{in_range, lemma_mul_bound, saturate_to_limit, EXTENT_LIMIT, LIMIT};
use crate::flocking_rules;
use crate::neighbours::{agents_wf, find_neighbours, neighbours_of};
use crate::vector::{lemma_norm_bound, lemma_times_bound, MathVec2, Vec2, Vec3};
use vstd::prelude::*;

verus! {

/// The family of rules, with its integration law, that a flock runs under.
#[derive(Clone, Copy, Debug, PartialEq, Eq, Structural)]
pub enum Rules {
    /// Forces of fixed magnitude that accumulate in the acceleration.
    Steering,
    /// Velocity changes that are blended into the acceleration.
    Velocity,
}

/// A fixed population of agents under one family of rules. An agent is
/// known by its index.
#[derive(Debug)]
pub struct Flock {
    pub agents: Vec<Agent>,
    pub rules: Rules,
}

impl View for Flock {
    type V = Seq<Agent>;

    open spec fn view(&self) -> Seq<Agent> {
        self.agents@
    }
}

impl Flock {
    /// Every agent is well formed.
    pub open spec fn wf(&self) -> bool {
        agents_wf(self@)
    }

    /// The flock of the given agents, in their order, under the given
    /// rules.
    pub fn new(agents: Vec<Agent>, rules: Rules) -> (flock: Flock)
        ensures
            flock@ == agents@,
            flock.rules == rules,
    {
        Flock { agents, rules }
    }

    /// Number of agents.
    pub fn len(&self) -> (n: usize)
        ensures
            n == self@.len(),
    {
        self.agents.len()
    }

    /// Tells whether every agent is well formed.
    pub fn is_well_formed(&self) -> (b: bool)
        ensures
            b == self.wf(),
    {
        let mut i: usize = 0;
        while i < self.agents.len()
            invariant
                i <= self.agents.len(),
                forall|k: int| 0 <= k < i ==> (#[trigger] self.agents@[k]).wf(),
            decreases self.agents.len() - i,
        {
            if !self.agents[i].is_well_formed() {
                return false;
            }
            i = i + 1;
        }
        true
    }
}

/// Whether every agent moves no faster than its speed limit.
pub open spec fn all_speed_bounded(s: Seq<Agent>) -> bool {
    forall|i: int| 0 <= i < s.len() ==> (#[trigger] s[i]).kinematic.speed_bounded()
}

/// The steering that the rules ask of agent `i`, given the flock as it
/// stands: the sum of alignment, cohesion and separation over the
/// neighbours of `i`.
pub open spec fn desired_rule(s: Seq<Agent>, i: int, rules: Rules) -> MathVec2 {
    let me = s[i];
    let ns = neighbours_of(s, i);
    match rules {
        Rules::Steering => flocking_rules::alignment_rule(me.kinematic, ns).plus(
            flocking_rules::cohesion_rule(me.transform, me.kinematic, ns),
        ).plus(flocking_rules::separation_rule(me.transform, me.kinematic, me.boid, ns)),
        Rules::Velocity => boid_rules::alignment_rule(ns).plus(
            boid_rules::cohere_rule(me.transform, ns),
        ).plus(boid_rules::seperate_rule(me.transform, me.boid, ns)),
    }
}

/// The flock after the steering phase: every agent carries the steering
/// that the rules ask of it, computed from the flock before the phase, and
/// is otherwise unchanged.
pub open spec fn steered(s: Seq<Agent>, rules: Rules) -> Seq<Agent> {
    Seq::new(
        s.len(),
        |i: int|
            Agent { desired: DesiredAcceleration2D(desired_rule(s, i, rules).stored()), ..s[i] },
    )
}

/// The acceleration after one integration step, before any reset: under the
/// steering rules the old one plus the steering; under the velocity rules
/// the old one plus the blend of the old one toward the steering. Either
/// way brought into the storable range.
pub open spec fn next_acceleration(a: Agent, rules: Rules) -> MathVec2 {
    let old_acc = a.kinematic.acceleration@;
    let want = a.desired.0@;
    match rules {
        Rules::Steering => old_acc.plus(want).saturated(),
        Rules::Velocity => old_acc.plus(
            old_acc.plus(want.minus(old_acc).times(ACCELERATION_BLEND as int)),
        ).saturated(),
    }
}

/// The velocity after one integration step, before the speed limit is
/// applied: under the steering rules the acceleration acts for the elapsed
/// time, under the velocity rules for one tick.
pub open spec fn raw_velocity(a: Agent, dt: int, rules: Rules) -> MathVec2 {
    match rules {
        Rules::Steering => a.kinematic.velocity@.plus(next_acceleration(a, rules).times(dt)),
        Rules::Velocity => a.kinematic.velocity@.plus(next_acceleration(a, rules)),
    }
}

/// Whether the step would take the agent over its speed limit.
pub open spec fn overspeed(a: Agent, dt: int, rules: Rules) -> bool {
    raw_velocity(a, dt, rules).norm_sq() > a.kinematic.move_speed * a.kinematic.move_speed
}

/// The velocity after one integration step: rescaled to the speed limit
/// where the step would exceed it.
pub open spec fn next_velocity(a: Agent, dt: int, rules: Rules) -> MathVec2 {
    if overspeed(a, dt, rules) {
        raw_velocity(a, dt, rules).scaled_to(a.kinematic.move_speed as int)
    } else {
        raw_velocity(a, dt, rules)
    }
}

/// The agent after one integration step over the elapsed time `dt`.
///
/// A step over no time, or over negative time, changes nothing. Otherwise
/// the acceleration takes up the steering, the velocity takes up the
/// acceleration and is held to the speed limit (under the velocity rules an
/// agent over the limit also loses its acceleration), the position moves by
/// the velocity times `dt` and stays in the storable range, and the heading
/// follows the velocity unless that is null.
pub open spec fn integrated(a: Agent, dt: int, rules: Rules) -> Agent {
    if dt <= 0 {
        a
    } else {
        let velocity = next_velocity(a, dt, rules);
        let acceleration = if rules == Rules::Velocity && overspeed(a, dt, rules) {
            MathVec2::zero()
        } else {
            next_acceleration(a, rules)
        };
        let position = a.transform.position().plus(velocity.times(dt)).saturated();
        Agent {
            transform: Transform {
                translation: Vec3 {
                    x: position.x as i64,
                    y: position.y as i64,
                    z: a.transform.translation.z,
                },
                heading: if velocity == MathVec2::zero() {
                    a.transform.heading
                } else {
                    velocity.stored()
                },
                scale: a.transform.scale,
            },
            kinematic: Kinematic2D {
                move_speed: a.kinematic.move_speed,
                acceleration: acceleration.stored(),
                velocity: velocity.stored(),
            },
            boid: a.boid,
            desired: a.desired,
        }
    }
}

/// The flock after the integration phase.
pub open spec fn moved(s: Seq<Agent>, dt: int, rules: Rules) -> Seq<Agent> {
    Seq::new(s.len(), |i: int| integrated(s[i], dt, rules))
}

/// One coordinate after the boundary wrap. The footprint reaches `extent / 2`
/// to either side of `x`. Once it lies wholly below zero the coordinate
/// moves up by `bound + extent`; once it lies wholly above `bound` the
/// coordinate moves down by as much.
pub open spec fn wrap_axis(x: int, bound: int, extent: int) -> int {
    if 2 * x < -extent {
        x + (bound + extent)
    } else if 2 * x > 2 * bound + extent {
        x - (bound + extent)
    } else {
        x
    }
}

/// The agent after the boundary wrap on a plane `width` wide and `height`
/// high.
pub open spec fn wrapped(a: Agent, width: int, height: int) -> Agent {
    Agent {
        transform: Transform {
            translation: Vec3 {
                x: wrap_axis(a.transform.translation.x as int, width, a.transform.scale.x as int) as i64,
                y: wrap_axis(a.transform.translation.y as int, height, a.transform.scale.y as int) as i64,
                z: a.transform.translation.z,
            },
            ..a.transform
        },
        ..a
    }
}

/// The flock after the boundary wrap.
pub open spec fn wrapped_all(s: Seq<Agent>, width: int, height: int) -> Seq<Agent> {
    Seq::new(s.len(), |i: int| wrapped(s[i], width, height))
}

/// The flock after one whole frame: steering, integration, boundary wrap.
pub open spec fn frame(s: Seq<Agent>, rules: Rules, dt: int, width: int, height: int) -> Seq<
    Agent,
> {
    wrapped_all(moved(steered(s, rules), dt, rules), width, height)
}

/// Computes the steering that the rules ask of agent `i`.
pub fn desired_acceleration(agents: &Vec<Agent>, i: usize, rules: Rules) -> (r: Vec2)
    requires
        i < agents.len(),
        agents_wf(agents@),
    ensures
        r@ == desired_rule(agents@, i as int, rules),
        r@.bounded(4 * LIMIT),
{
    let me = &agents[i];
    let percepted_boids = find_neighbours(agents, i);
    match rules {
        Rules::Steering => {
            let a = flocking_rules::alignment((&me.transform, &me.kinematic), &percepted_boids);
            let c = flocking_rules::cohesion((&me.transform, &me.kinematic), &percepted_boids);
            let s = flocking_rules::separation(
                (&me.transform, &me.kinematic, &me.boid),
                &percepted_boids,
            );
            a.plus(c).plus(s)
        },
        Rules::Velocity => {
            let a = boid_rules::alignment((&me.transform, &me.kinematic), &percepted_boids);
            let c = boid_rules::cohere((&me.transform, &me.kinematic), &percepted_boids);
            let s = boid_rules::seperate(
                (&me.transform, &me.kinematic, &me.boid),
                &percepted_boids,
            );
            a.plus(c).plus(s)
        },
    }
}

/// The steering phase. Reads the flock as the previous frame left it and
/// writes nothing but each agent's desired acceleration.
pub fn calculate_boid_velocity(flock: &mut Flock)
    requires
        old(flock).wf(),
    ensures
        final(flock)@ == steered(old(flock)@, old(flock).rules),
        final(flock)@.len() == old(flock)@.len(),
        final(flock).rules == old(flock).rules,
        final(flock).wf(),
{
    let n = flock.agents.len();
    let rules = flock.rules;
    let mut staged: Vec<Vec2> = Vec::new();
    let mut i: usize = 0;
    while i < n
        invariant
            i <= n,
            n == flock.agents.len(),
            flock.agents@ == old(flock)@,
            flock.rules == old(flock).rules,
            rules == flock.rules,
            agents_wf(flock.agents@),
            staged.len() == i,
            forall|k: int|
                0 <= k < i ==> (#[trigger] staged[k])@ == desired_rule(flock.agents@, k, rules)
                    && staged[k]@.bounded(4 * LIMIT),
        decreases n - i,
    {
        let d = desired_acceleration(&flock.agents, i, rules);
        staged.push(d);
        i = i + 1;
    }
    let mut j: usize = 0;
    while j < n
        invariant
            j <= n,
            n == flock.agents.len(),
            n == old(flock)@.len(),
            staged.len() == n,
            old(flock).wf(),
            flock.rules == old(flock).rules,
            rules == flock.rules,
            forall|k: int|
                0 <= k < n ==> (#[trigger] staged[k])@ == desired_rule(old(flock)@, k, rules)
                    && staged[k]@.bounded(4 * LIMIT),
            forall|k: int| 0 <= k < j ==> (#[trigger] flock.agents@[k]) == steered(old(flock)@, rules)[k],
            forall|k: int| j <= k < n ==> (#[trigger] flock.agents@[k]) == old(flock)@[k],
            forall|k: int| 0 <= k < n ==> (#[trigger] flock.agents@[k]).wf(),
        decreases n - j,
    {
        let mut agent = flock.agents[j];
        agent.desired = DesiredAcceleration2D(staged[j]);
        flock.agents.set(j, agent);
        j = j + 1;
    }
    assert(flock.agents@ =~= steered(old(flock)@, old(flock).rules));
}

/// Advances one agent by one integration step.
pub fn integrate(agent: &Agent, dt: i32, rules: Rules) -> (r: Agent)
    requires
        agent.wf(),
    ensures
        r == integrated(*agent, dt as int, rules),
        r.wf(),
        dt > 0 || agent.kinematic.speed_bounded() ==> r.kinematic.speed_bounded(),
{
    if dt <= 0 {
        return *agent;
    }
    let k = agent.kinematic;
    let want = agent.desired.0;
    let acc = match rules {
        Rules::Steering => Vec2 {
            x: saturate_to_limit(k.acceleration.x as i128 + want.x as i128),
            y: saturate_to_limit(k.acceleration.y as i128 + want.y as i128),
        },
        Rules::Velocity => {
            let gap = want.minus(k.acceleration);
            proof {
                lemma_times_bound(gap@, ACCELERATION_BLEND as int, 5 * LIMIT, LIMIT as int);
            }
            let blend = gap.times(ACCELERATION_BLEND);
            Vec2 {
                x: saturate_to_limit(2 * (k.acceleration.x as i128) + blend.x as i128),
                y: saturate_to_limit(2 * (k.acceleration.y as i128) + blend.y as i128),
            }
        },
    };
    assert(acc@ == next_acceleration(*agent, rules));
    let raw = match rules {
        Rules::Steering => {
            proof {
                lemma_times_bound(acc@, dt as int, LIMIT as int, 2_147_483_648_000_000);
            }
            k.velocity.plus(acc.times(dt as i64))
        },
        Rules::Velocity => k.velocity.plus(acc),
    };
    assert(raw@ == raw_velocity(*agent, dt as int, rules));
    let most: u128 = k.move_speed as u128;
    proof {
        lemma_mul_bound(most as int, most as int, LIMIT as int, LIMIT as int);
    }
    let over = raw.length_squared() > most * most;
    let velocity = if over {
        raw.scaled_to(k.move_speed)
    } else {
        raw
    };
    proof {
        lemma_norm_bound(velocity@, k.move_speed as int);
        lemma_times_bound(velocity@, dt as int, LIMIT as int, 2_147_483_648_000_000);
    }
    let acceleration = match rules {
        Rules::Steering => acc,
        Rules::Velocity => if over {
            Vec2::zero()
        } else {
            acc
        },
    };
    let travel = velocity.times(dt as i64);
    let t = agent.transform;
    let heading = if velocity.x == 0 && velocity.y == 0 {
        t.heading
    } else {
        velocity
    };
    Agent {
        transform: Transform {
            translation: Vec3 {
                x: saturate_to_limit(t.translation.x as i128 + travel.x as i128),
                y: saturate_to_limit(t.translation.y as i128 + travel.y as i128),
                z: t.translation.z,
            },
            heading,
            scale: t.scale,
        },
        kinematic: Kinematic2D { move_speed: k.move_speed, acceleration, velocity },
        boid: agent.boid,
        desired: agent.desired,
    }
}

/// The integration phase: advances every agent by the elapsed time `dt`.
pub fn move_boids(flock: &mut Flock, dt: i32)
    requires
        old(flock).wf(),
    ensures
        final(flock)@ == moved(old(flock)@, dt as int, old(flock).rules),
        final(flock)@.len() == old(flock)@.len(),
        final(flock).rules == old(flock).rules,
        final(flock).wf(),
        dt > 0 || all_speed_bounded(old(flock)@) ==> all_speed_bounded(final(flock)@),
{
    let n = flock.agents.len();
    let rules = flock.rules;
    let mut i: usize = 0;
    while i < n
        invariant
            i <= n,
            n == flock.agents.len(),
            n == old(flock)@.len(),
            flock.rules == old(flock).rules,
            rules == flock.rules,
            forall|k: int|
                0 <= k < i ==> (#[trigger] flock.agents@[k]) == integrated(
                    old(flock)@[k],
                    dt as int,
                    rules,
                ),
            forall|k: int|
                0 <= k < i && (dt > 0 || old(flock)@[k].kinematic.speed_bounded()) ==> (
                #[trigger] flock.agents@[k]).kinematic.speed_bounded(),
            forall|k: int| i <= k < n ==> (#[trigger] flock.agents@[k]) == old(flock)@[k],
            forall|k: int| 0 <= k < n ==> (#[trigger] flock.agents@[k]).wf(),
        decreases n - i,
    {
        let next = integrate(&flock.agents[i], dt, rules);
        flock.agents.set(i, next);
        i = i + 1;
    }
    assert(flock.agents@ =~= moved(old(flock)@, dt as int, old(flock).rules));
}

/// Wraps one coordinate around a bound.
pub fn wrap_coordinate(x: i64, bound: i64, extent: i64) -> (r: i64)
    requires
        in_range(x as int),
        0 <= bound <= EXTENT_LIMIT,
        0 <= extent <= EXTENT_LIMIT,
    ensures
        r == wrap_axis(x as int, bound as int, extent as int),
        in_range(r as int),
{
    if 2 * x < -extent {
        x + (bound + extent)
    } else if 2 * x > 2 * bound + extent {
        x - (bound + extent)
    } else {
        x
    }
}

/// The boundary wrap: an agent that has left the plane comes back in from
/// the opposite edge.
pub fn wrap_boids(flock: &mut Flock, width: i64, height: i64)
    requires
        old(flock).wf(),
        0 <= width <= EXTENT_LIMIT,
        0 <= height <= EXTENT_LIMIT,
    ensures
        final(flock)@ == wrapped_all(old(flock)@, width as int, height as int),
        final(flock)@.len() == old(flock)@.len(),
        final(flock).rules == old(flock).rules,
        final(flock).wf(),
        all_speed_bounded(old(flock)@) ==> all_speed_bounded(final(flock)@),
{
    let n = flock.agents.len();
    let mut i: usize = 0;
    while i < n
        invariant
            i <= n,
            n == flock.agents.len(),
            n == old(flock)@.len(),
            flock.rules == old(flock).rules,
            0 <= width <= EXTENT_LIMIT,
            0 <= height <= EXTENT_LIMIT,
            forall|k: int|
                0 <= k < i ==> (#[trigger] flock.agents@[k]) == wrapped(
                    old(flock)@[k],
                    width as int,
                    height as int,
                ),
            forall|k: int| i <= k < n ==> (#[trigger] flock.agents@[k]) == old(flock)@[k],
            forall|k: int| 0 <= k < n ==> (#[trigger] flock.agents@[k]).wf(),
        decreases n - i,
    {
        let mut agent = flock.agents[i];
        agent.transform.translation.x = wrap_coordinate(
            agent.transform.translation.x,
            width,
            agent.transform.scale.x,
        );
        agent.transform.translation.y = wrap_coordinate(
            agent.transform.translation.y,
            height,
            agent.transform.scale.y,
        );
        flock.agents.set(i, agent);
        i = i + 1;
    }
    assert(flock.agents@ =~= wrapped_all(old(flock)@, width as int, height as int));
}

/// Runs one frame: steering, then integration, then boundary wrap.
pub fn step(flock: &mut Flock, dt: i32, width: i64, height: i64)
    requires
        old(flock).wf(),
        0 <= width <= EXTENT_LIMIT,
        0 <= height <= EXTENT_LIMIT,
    ensures
        final(flock)@ == frame(
            old(flock)@,
            old(flock).rules,
            dt as int,
            width as int,
            height as int,
        ),
        final(flock)@.len() == old(flock)@.len(),
        final(flock).rules == old(flock).rules,
        final(flock).wf(),
        dt > 0 || all_speed_bounded(old(flock)@) ==> all_speed_bounded(final(flock)@),
{
    calculate_boid_velocity(flock);
    move_boids(flock, dt);
    wrap_boids(flock, width, height);
}

} // verus!
