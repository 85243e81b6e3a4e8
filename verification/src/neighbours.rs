//! Neighbourhoods: the agents that one agent perceives, and the sums that
//! the steering rules take over them.

use crate::components::{Agent, Kinematic2D, Transform};
use crate::fixed::{lemma_mul_bound, lemma_trunc_div_bound, LIMIT};
use crate::vector::{vec3_to_vec2, MathVec2, Vec2};
use vstd::prelude::*;

verus! {

/// Whether every neighbour of the list is well formed.
pub open spec fn all_wf(ns: Seq<(&Transform, &Kinematic2D)>) -> bool {
    forall|i: int| 0 <= i < ns.len() ==> (#[trigger] ns[i]).0.wf() && ns[i].1.wf()
}

/// Sum of the neighbours' velocities.
pub open spec fn velocity_sum(ns: Seq<(&Transform, &Kinematic2D)>) -> MathVec2
    decreases ns.len(),
{
    if ns.len() == 0 {
        MathVec2::zero()
    } else {
        velocity_sum(ns.drop_last()).plus(ns.last().1.velocity@)
    }
}

/// Sum of the neighbours' positions.
pub open spec fn position_sum(ns: Seq<(&Transform, &Kinematic2D)>) -> MathVec2
    decreases ns.len(),
{
    if ns.len() == 0 {
        MathVec2::zero()
    } else {
        position_sum(ns.drop_last()).plus(ns.last().0.position())
    }
}

/// Whether agent `j` is another agent than `i` and lies within the
/// perception radius of `i`.
pub open spec fn is_neighbour(s: Seq<Agent>, i: int, j: int) -> bool {
    &&& 0 <= i < s.len()
    &&& 0 <= j < s.len()
    &&& i != j
    &&& s[i].transform.position().within(
        s[j].transform.position(),
        s[i].boid.perception_radius as int,
    )
}

/// The neighbours of agent `i` among the first `k` agents, in the order of
/// the flock.
pub open spec fn neighbours_upto(s: Seq<Agent>, i: int, k: int) -> Seq<
    (&'static Transform, &'static Kinematic2D),
>
    decreases k,
{
    if k <= 0 {
        Seq::empty()
    } else if is_neighbour(s, i, k - 1) {
        neighbours_upto(s, i, k - 1).push((&s[k - 1].transform, &s[k - 1].kinematic))
    } else {
        neighbours_upto(s, i, k - 1)
    }
}

/// The neighbours of agent `i` in the flock `s`, in the order of the flock.
pub open spec fn neighbours_of(s: Seq<Agent>, i: int) -> Seq<
    (&'static Transform, &'static Kinematic2D),
> {
    neighbours_upto(s, i, s.len() as int)
}

/// Whether every agent of the sequence is well formed.
pub open spec fn agents_wf(s: Seq<Agent>) -> bool {
    forall|i: int| 0 <= i < s.len() ==> (#[trigger] s[i]).wf()
}

/// The neighbours found among well-formed agents are well formed.
pub proof fn lemma_neighbours_wf(s: Seq<Agent>, i: int, k: int)
    requires
        agents_wf(s),
        k <= s.len(),
    ensures
        all_wf(neighbours_upto(s, i, k)),
    decreases k,
{
    if k > 0 {
        lemma_neighbours_wf(s, i, k - 1);
    }
}

/// The velocities of `n` well-formed neighbours add up to at most `n` times
/// the storable limit.
pub proof fn lemma_velocity_sum_bound(ns: Seq<(&Transform, &Kinematic2D)>)
    requires
        all_wf(ns),
    ensures
        velocity_sum(ns).bounded(ns.len() * LIMIT),
    decreases ns.len(),
{
    if ns.len() > 0 {
        lemma_velocity_sum_bound(ns.drop_last());
    }
}

/// The positions of `n` well-formed neighbours add up to at most `n` times
/// the storable limit.
pub proof fn lemma_position_sum_bound(ns: Seq<(&Transform, &Kinematic2D)>)
    requires
        all_wf(ns),
    ensures
        position_sum(ns).bounded(ns.len() * LIMIT),
    decreases ns.len(),
{
    if ns.len() > 0 {
        lemma_position_sum_bound(ns.drop_last());
    }
}

/// The mean of `n` vectors, each within `bound`, lies within `bound`.
pub proof fn lemma_mean_bound(sum: MathVec2, n: int, bound: int)
    requires
        n > 0,
        0 <= bound,
        sum.bounded(n * bound),
    ensures
        sum.div_count(n).bounded(bound),
{
    assert(bound * n == n * bound) by (nonlinear_arith);
    lemma_trunc_div_bound(sum.x, n, bound);
    lemma_trunc_div_bound(sum.y, n, bound);
}

/// Gathers the agents that agent `i` perceives: every other agent whose
/// distance to it is at most its perception radius.
pub fn find_neighbours<'a>(agents: &'a Vec<Agent>, i: usize) -> (r: Vec<
    (&'a Transform, &'a Kinematic2D),
>)
    requires
        i < agents.len(),
        agents_wf(agents@),
    ensures
        r@ == neighbours_of(agents@, i as int),
        all_wf(r@),
{
    let mut found: Vec<(&'a Transform, &'a Kinematic2D)> = Vec::new();
    let me = &agents[i];
    let here = vec3_to_vec2(me.transform.translation);
    let radius: u128 = me.boid.perception_radius as u128;
    proof {
        lemma_mul_bound(radius as int, radius as int, LIMIT as int, LIMIT as int);
    }
    let reach: u128 = radius * radius;
    let mut j: usize = 0;
    while j < agents.len()
        invariant
            j <= agents.len(),
            i < agents.len(),
            agents_wf(agents@),
            me == &agents[i as int],
            here@ == agents[i as int].transform.position(),
            reach == agents[i as int].boid.perception_radius * agents[i as int].boid.perception_radius,
            found@ == neighbours_upto(agents@, i as int, j as int),
            all_wf(found@),
        decreases agents.len() - j,
    {
        let other = &agents[j];
        if j != i {
            let there = vec3_to_vec2(other.transform.translation);
            if here.distance_squared(there) <= reach {
                found.push((&other.transform, &other.kinematic));
            }
        }
        j = j + 1;
    }
    found
}

/// Adds up the velocities of the neighbours.
pub fn sum_of_velocities(ns: &Vec<(&Transform, &Kinematic2D)>) -> (r: (i128, i128))
    requires
        all_wf(ns@),
    ensures
        (MathVec2 { x: r.0 as int, y: r.1 as int }) == velocity_sum(ns@),
        velocity_sum(ns@).bounded(ns.len() * LIMIT),
{
    let mut sx: i128 = 0;
    let mut sy: i128 = 0;
    let mut i: usize = 0;
    while i < ns.len()
        invariant
            i <= ns.len(),
            all_wf(ns@),
            (MathVec2 { x: sx as int, y: sy as int }) == velocity_sum(ns@.take(i as int)),
            velocity_sum(ns@.take(i as int)).bounded(i * LIMIT),
        decreases ns.len() - i,
    {
        assert(ns@.take(i + 1).drop_last() =~= ns@.take(i as int));
        let v = ns[i].1.velocity;
        sx = sx + v.x as i128;
        sy = sy + v.y as i128;
        i = i + 1;
    }
    assert(ns@.take(ns.len() as int) =~= ns@);
    (sx, sy)
}

/// Adds up the positions of the neighbours.
pub fn sum_of_positions(ns: &Vec<(&Transform, &Kinematic2D)>) -> (r: (i128, i128))
    requires
        all_wf(ns@),
    ensures
        (MathVec2 { x: r.0 as int, y: r.1 as int }) == position_sum(ns@),
        position_sum(ns@).bounded(ns.len() * LIMIT),
{
    let mut sx: i128 = 0;
    let mut sy: i128 = 0;
    let mut i: usize = 0;
    while i < ns.len()
        invariant
            i <= ns.len(),
            all_wf(ns@),
            (MathVec2 { x: sx as int, y: sy as int }) == position_sum(ns@.take(i as int)),
            position_sum(ns@.take(i as int)).bounded(i * LIMIT),
        decreases ns.len() - i,
    {
        assert(ns@.take(i + 1).drop_last() =~= ns@.take(i as int));
        let p = ns[i].0.translation;
        sx = sx + p.x as i128;
        sy = sy + p.y as i128;
        i = i + 1;
    }
    assert(ns@.take(ns.len() as int) =~= ns@);
    (sx, sy)
}

/// Divides a sum of `n` vectors by `n`.
pub fn mean_of(sx: i128, sy: i128, n: usize, bound: i64) -> (r: Vec2)
    requires
        n > 0,
        0 <= bound,
        (MathVec2 { x: sx as int, y: sy as int }).bounded(n * bound),
    ensures
        r@ == (MathVec2 { x: sx as int, y: sy as int }).div_count(n as int),
        r@.bounded(bound as int),
{
    proof {
        lemma_mean_bound(MathVec2 { x: sx as int, y: sy as int }, n as int, bound as int);
    }
    let d: i128 = n as i128;
    Vec2 { x: (sx / d) as i64, y: (sy / d) as i64 }
}

} // verus!
