//! What holds of every flock and every frame.

use crate::boid_rules;
use crate::components::Agent;
use crate::fixed::EXTENT_LIMIT;
use crate::flocking_rules;
use crate::neighbours::{
    agents_wf, is_neighbour, lemma_neighbours_wf, neighbours_of, neighbours_upto,
};
use crate::systems::{
    all_speed_bounded, desired_rule, frame, integrated, moved, next_velocity, overspeed, raw_velocity, steered,
    wrap_axis, wrapped, wrapped_all, Rules,
};
use crate::vector::{lemma_norm_bound, lemma_scaled_to_norm, MathVec2};
use vstd::prelude::*;

verus! {

/// What the host hands to one frame: the elapsed time and the bounds of the
/// plane at that moment.
pub struct FrameInput {
    pub dt: int,
    pub width: int,
    pub height: int,
}

impl FrameInput {
    /// The bounds are legal extents.
    pub open spec fn wf(self) -> bool {
        0 <= self.width <= EXTENT_LIMIT && 0 <= self.height <= EXTENT_LIMIT
    }
}

/// The flock after one frame for each input, in order.
pub open spec fn after_frames(s: Seq<Agent>, rules: Rules, inputs: Seq<FrameInput>) -> Seq<Agent>
    decreases inputs.len(),
{
    if inputs.len() == 0 {
        s
    } else {
        let input = inputs.last();
        frame(
            after_frames(s, rules, inputs.drop_last()),
            rules,
            input.dt,
            input.width,
            input.height,
        )
    }
}

/// Distance does not depend on the side it is measured from: `a` lies
/// within `r` of `b` exactly when `b` lies within `r` of `a`.
pub proof fn law_distance_symmetric(a: MathVec2, b: MathVec2, r: int)
    ensures
        a.within(b, r) == b.within(a, r),
{
    assert((a.x - b.x) * (a.x - b.x) == (b.x - a.x) * (b.x - a.x)) by (nonlinear_arith);
    assert((a.y - b.y) * (a.y - b.y) == (b.y - a.y) * (b.y - a.y)) by (nonlinear_arith);
}

/// Neighbourhood is symmetric between two agents of one perception radius:
/// `j` is a neighbour of `i` exactly when `i` is a neighbour of `j`.
pub proof fn law_neighbour_symmetry(s: Seq<Agent>, i: int, j: int)
    requires
        0 <= i < s.len(),
        0 <= j < s.len(),
        s[i].boid.perception_radius == s[j].boid.perception_radius,
    ensures
        is_neighbour(s, i, j) == is_neighbour(s, j, i),
{
    law_distance_symmetric(
        s[i].transform.position(),
        s[j].transform.position(),
        s[i].boid.perception_radius as int,
    );
}

/// The neighbour query leaves no neighbour out: every other agent within
/// the perception radius of `i` stands in the list.
pub proof fn law_neighbour_query_complete(s: Seq<Agent>, i: int, j: int)
    requires
        is_neighbour(s, i, j),
    ensures
        neighbours_of(s, i).contains((&s[j].transform, &s[j].kinematic)),
{
    lemma_neighbours_complete(s, i, j, s.len() as int);
}

/// The neighbour query lists only neighbours: each entry of the list is
/// another agent than `i`, within the perception radius of `i`.
pub proof fn law_neighbour_query_sound(s: Seq<Agent>, i: int, at: int)
    requires
        0 <= at < neighbours_of(s, i).len(),
    ensures
        exists|j: int|
            #[trigger] is_neighbour(s, i, j) && neighbours_of(s, i)[at] == (
                &s[j].transform,
                &s[j].kinematic,
            ),
{
    lemma_neighbours_sound(s, i, s.len() as int, at);
    let j = choose|j: int|
        #[trigger] is_neighbour(s, i, j) && j < s.len() && neighbours_of(s, i)[at] == (
            &s[j].transform,
            &s[j].kinematic,
        );
    assert(is_neighbour(s, i, j));
}

/// Each neighbour of `i` among the first `k` agents stands in the list of
/// the neighbours among them.
pub proof fn lemma_neighbours_complete(s: Seq<Agent>, i: int, j: int, k: int)
    requires
        is_neighbour(s, i, j),
        j < k <= s.len(),
    ensures
        neighbours_upto(s, i, k).contains((&s[j].transform, &s[j].kinematic)),
    decreases k,
{
    let earlier = neighbours_upto(s, i, k - 1);
    if j == k - 1 {
        let all = earlier.push((&s[j].transform, &s[j].kinematic));
        assert(all[earlier.len() as int] == (&s[j].transform, &s[j].kinematic));
    } else {
        lemma_neighbours_complete(s, i, j, k - 1);
        let at = choose|at: int|
            0 <= at < earlier.len() && earlier[at] == (&s[j].transform, &s[j].kinematic);
        assert(neighbours_upto(s, i, k)[at] == earlier[at]);
    }
}

/// Each entry of the list of the neighbours of `i` among the first `k`
/// agents is a neighbour of `i`, and one of those agents.
pub proof fn lemma_neighbours_sound(s: Seq<Agent>, i: int, k: int, at: int)
    requires
        k <= s.len(),
        0 <= at < neighbours_upto(s, i, k).len(),
    ensures
        exists|j: int|
            #[trigger] is_neighbour(s, i, j) && j < k && neighbours_upto(s, i, k)[at] == (
                &s[j].transform,
                &s[j].kinematic,
            ),
    decreases k,
{
    let earlier = neighbours_upto(s, i, k - 1);
    if is_neighbour(s, i, k - 1) && at == earlier.len() {
        assert(is_neighbour(s, i, k - 1) && neighbours_upto(s, i, k)[at] == (
            &s[k - 1].transform,
            &s[k - 1].kinematic,
        ));
    } else {
        lemma_neighbours_sound(s, i, k - 1, at);
        let j = choose|j: int|
            #[trigger] is_neighbour(s, i, j) && j < k - 1 && earlier[at] == (
                &s[j].transform,
                &s[j].kinematic,
            );
        assert(is_neighbour(s, i, j) && j < k);
    }
}

/// An agent with no other agent within its perception radius has an empty
/// neighbourhood.
pub proof fn lemma_isolated_has_no_neighbours(s: Seq<Agent>, i: int, k: int)
    requires
        forall|j: int| !is_neighbour(s, i, j),
    ensures
        neighbours_upto(s, i, k).len() == 0,
    decreases k,
{
    if k > 0 {
        lemma_isolated_has_no_neighbours(s, i, k - 1);
    }
}

/// An isolated agent is not steered: with no other agent within its
/// perception radius, alignment and cohesion are exactly null under both
/// families of rules, and so is the whole desired acceleration.
pub proof fn law_isolated_agent_unsteered(s: Seq<Agent>, i: int, rules: Rules)
    requires
        0 <= i < s.len(),
        forall|j: int| !is_neighbour(s, i, j),
    ensures
        neighbours_of(s, i).len() == 0,
        flocking_rules::alignment_rule(s[i].kinematic, neighbours_of(s, i)) == MathVec2::zero(),
        flocking_rules::cohesion_rule(s[i].transform, s[i].kinematic, neighbours_of(s, i))
            == MathVec2::zero(),
        boid_rules::alignment_rule(neighbours_of(s, i)) == MathVec2::zero(),
        boid_rules::cohere_rule(s[i].transform, neighbours_of(s, i)) == MathVec2::zero(),
        desired_rule(s, i, rules) == MathVec2::zero(),
{
    lemma_isolated_has_no_neighbours(s, i, s.len() as int);
}

/// A coordinate whose footprint touches the plane is left where it is.
pub proof fn law_wrap_keeps_inside(x: int, bound: int, extent: int)
    requires
        -extent <= 2 * x <= 2 * bound + extent,
    ensures
        wrap_axis(x, bound, extent) == x,
{
}

/// Wrapping twice is wrapping once, exactly for the coordinates that lie no
/// further than one period outside the plane (and for all of them where the
/// period is null).
pub proof fn law_wrap_idempotent(x: int, bound: int, extent: int)
    requires
        0 <= bound,
        0 <= extent,
    ensures
        wrap_axis(wrap_axis(x, bound, extent), bound, extent) == wrap_axis(x, bound, extent) <==> (
        bound + extent == 0 || -extent - 2 * (bound + extent) <= 2 * x <= 2 * bound + extent + 2
            * (bound + extent)),
{
}

/// A wrapped coordinate is at rest: where the first wrap brought the
/// footprint back onto the plane, a second wrap changes nothing.
pub proof fn law_wrapped_agent_rests(a: Agent, width: int, height: int)
    requires
        a.wf(),
        0 <= width <= EXTENT_LIMIT,
        0 <= height <= EXTENT_LIMIT,
        -a.transform.scale.x - 2 * (width + a.transform.scale.x) <= 2 * a.transform.translation.x
            <= 2 * width + a.transform.scale.x + 2 * (width + a.transform.scale.x),
        -a.transform.scale.y - 2 * (height + a.transform.scale.y) <= 2 * a.transform.translation.y
            <= 2 * height + a.transform.scale.y + 2 * (height + a.transform.scale.y),
    ensures
        wrapped(wrapped(a, width, height), width, height) == wrapped(a, width, height),
{
    law_wrap_idempotent(a.transform.translation.x as int, width, a.transform.scale.x as int);
    law_wrap_idempotent(a.transform.translation.y as int, height, a.transform.scale.y as int);
}

/// One integration step over positive time leaves the agent no faster than
/// its speed limit, whatever its speed was; a skipped step keeps a speed
/// that was within the limit. The agent stays well formed.
pub proof fn law_speed_bound_step(a: Agent, dt: int, rules: Rules)
    requires
        a.wf(),
    ensures
        integrated(a, dt, rules).wf(),
        dt > 0 || a.kinematic.speed_bounded() ==> integrated(a, dt, rules).kinematic.speed_bounded(),
{
    if dt > 0 {
        let most = a.kinematic.move_speed as int;
        let raw = raw_velocity(a, dt, rules);
        let velocity = next_velocity(a, dt, rules);
        if overspeed(a, dt, rules) {
            lemma_scaled_to_norm(raw, most);
        }
        lemma_norm_bound(velocity, most);
    }
}

/// The steering phase keeps a well-formed flock well formed.
pub proof fn lemma_steered_wf(s: Seq<Agent>, rules: Rules)
    requires
        agents_wf(s),
    ensures
        agents_wf(steered(s, rules)),
{
    assert forall|i: int| 0 <= i < s.len() implies (#[trigger] steered(s, rules)[i]).wf() by {
        let me = s[i];
        let ns = neighbours_of(s, i);
        lemma_neighbours_wf(s, i, s.len() as int);
        flocking_rules::lemma_rules_bounded(me.transform, me.kinematic, me.boid, ns);
        boid_rules::lemma_rules_bounded(me.transform, me.boid, ns);
    }
}

/// A whole frame keeps a well-formed flock well formed.
pub proof fn lemma_frame_wf(s: Seq<Agent>, rules: Rules, input: FrameInput)
    requires
        agents_wf(s),
        input.wf(),
    ensures
        agents_wf(frame(s, rules, input.dt, input.width, input.height)),
        input.dt > 0 || all_speed_bounded(s) ==> all_speed_bounded(
            frame(s, rules, input.dt, input.width, input.height),
        ),
{
    lemma_steered_wf(s, rules);
    let a = steered(s, rules);
    let b = moved(a, input.dt, rules);
    assert forall|i: int| 0 <= i < s.len() implies (#[trigger] b[i]).wf() && (input.dt > 0
        || s[i].kinematic.speed_bounded() ==> b[i].kinematic.speed_bounded()) by {
        law_speed_bound_step(a[i], input.dt, rules);
    }
    let c = wrapped_all(b, input.width, input.height);
    assert forall|i: int| 0 <= i < s.len() implies (#[trigger] c[i]).wf() && c[i].kinematic
        == b[i].kinematic by {}
}

/// Population conservation: whatever the frames, the flock has as many
/// agents after them as before.
pub proof fn law_population_conserved(s: Seq<Agent>, rules: Rules, inputs: Seq<FrameInput>)
    ensures
        after_frames(s, rules, inputs).len() == s.len(),
    decreases inputs.len(),
{
    if inputs.len() > 0 {
        law_population_conserved(s, rules, inputs.drop_last());
    }
}

/// Identity is stable: a frame changes neither the perception nor the speed
/// limit nor the drawing layer and size of any agent.
pub proof fn law_identity_stable(s: Seq<Agent>, rules: Rules, input: FrameInput, i: int)
    requires
        0 <= i < s.len(),
    ensures
        frame(s, rules, input.dt, input.width, input.height)[i].boid == s[i].boid,
        frame(s, rules, input.dt, input.width, input.height)[i].kinematic.move_speed
            == s[i].kinematic.move_speed,
        frame(s, rules, input.dt, input.width, input.height)[i].transform.scale
            == s[i].transform.scale,
        frame(s, rules, input.dt, input.width, input.height)[i].transform.translation.z
            == s[i].transform.translation.z,
{
}

/// Speed bound: a well-formed flock that starts within its speed limits is
/// within them after any number of frames, and so is any well-formed flock
/// once a frame over positive time has run last. The flock stays well
/// formed throughout.
pub proof fn law_speed_bound(s: Seq<Agent>, rules: Rules, inputs: Seq<FrameInput>)
    requires
        agents_wf(s),
        forall|k: int| 0 <= k < inputs.len() ==> (#[trigger] inputs[k]).wf(),
    ensures
        agents_wf(after_frames(s, rules, inputs)),
        all_speed_bounded(s) ==> all_speed_bounded(after_frames(s, rules, inputs)),
        inputs.len() > 0 && inputs.last().dt > 0 ==> all_speed_bounded(
            after_frames(s, rules, inputs),
        ),
    decreases inputs.len(),
{
    if inputs.len() > 0 {
        law_speed_bound(s, rules, inputs.drop_last());
        lemma_frame_wf(after_frames(s, rules, inputs.drop_last()), rules, inputs.last());
    }
}

} // verus!
