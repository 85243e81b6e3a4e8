//! Creation of a flock.

use crate::components::{Agent, Boid, DesiredAcceleration2D, Kinematic2D, Transform};
use crate::fixed::{
    ceil_sqrt, in_range, lemma_mul_bound, lemma_square_monotonic, magnitude, EXTENT_LIMIT, SCALE,
};
use crate::random::{draw_between, seeded_generator};
use crate::resources::{BoidCount, BoidMaxSpeed, BoidPerceptionRadius, BoidScale};
use crate::systems::{Flock, Rules};
use crate::vector::{
    lemma_length_dominates, lemma_scaled_to_length, lemma_scaled_to_norm, MathVec2, Vec2, Vec3,
};
use vstd::prelude::*;

verus! {

/// The direction that a heading draw stands for: the draw itself, enlarged
/// so that rescaling it loses little, and the unit vector along the first
/// axis where the draw is null.
pub open spec fn drawn_direction(hx: int, hy: int) -> MathVec2 {
    if hx == 0 && hy == 0 {
        MathVec2 { x: SCALE as int, y: 0 }
    } else {
        MathVec2 { x: hx * SCALE, y: hy * SCALE }
    }
}

/// The agent that the draws `(x, y)` for the position and `(hx, hy)` for the
/// heading give.
///
/// It stands at `(x, y)` on the drawing layer `layer`, faces along the first
/// axis, moves at full speed along the drawn direction, and has no
/// acceleration and no steering yet. Its separation distance is half its
/// perception radius.
pub open spec fn spawned(
    x: int,
    y: int,
    hx: int,
    hy: int,
    layer: int,
    scale: BoidScale,
    max_speed: BoidMaxSpeed,
    radius: BoidPerceptionRadius,
) -> Agent {
    Agent {
        transform: Transform {
            translation: Vec3 { x: x as i64, y: y as i64, z: layer as i64 },
            heading: Vec2 { x: SCALE, y: 0 },
            scale: Vec3 { x: scale.0, y: scale.0, z: scale.0 },
        },
        kinematic: Kinematic2D {
            move_speed: max_speed.0,
            acceleration: Vec2 { x: 0, y: 0 },
            velocity: drawn_direction(hx, hy).scaled_to(max_speed.0 as int).stored(),
        },
        boid: Boid { perception_radius: radius.0, separation_distance: (radius.0 / 2) as i64 },
        desired: DesiredAcceleration2D(Vec2 { x: 0, y: 0 }),
    }
}

/// Whether `(x, y)` is a position draw on a plane `width` wide and `height`
/// high, and `(hx, hy)` a heading draw.
pub open spec fn legal_draws(x: int, y: int, hx: int, hy: int, width: int, height: int) -> bool {
    &&& 0 <= x && (x < width || x == 0)
    &&& 0 <= y && (y < height || y == 0)
    &&& -SCALE <= hx <= SCALE
    &&& -SCALE <= hy <= SCALE
}

/// Whether `a` is an agent that some legal draws give.
pub open spec fn is_spawn(
    a: Agent,
    layer: int,
    scale: BoidScale,
    max_speed: BoidMaxSpeed,
    radius: BoidPerceptionRadius,
    width: int,
    height: int,
) -> bool {
    exists|x: int, y: int, hx: int, hy: int|
        legal_draws(x, y, hx, hy, width, height) && a == #[trigger] spawned(
            x,
            y,
            hx,
            hy,
            layer,
            scale,
            max_speed,
            radius,
        )
}

/// Whatever the heading draw, the velocity that it gives is the speed limit
/// rounded: no longer than the limit, and short of it by less than a
/// millionth of it and a few units.
pub proof fn lemma_spawn_speed(hx: int, hy: int, most: int)
    requires
        -SCALE <= hx <= SCALE,
        -SCALE <= hy <= SCALE,
        0 <= most,
    ensures
        ({
            let v = drawn_direction(hx, hy).scaled_to(most);
            let a = magnitude(v.x) + 1;
            let b = magnitude(v.y) + 1;
            let k = most - most / (SCALE as int) - 1;
            v.norm_sq() <= most * most && a * a + b * b > k * k
        }),
{
    let d = drawn_direction(hx, hy);
    let v = d.scaled_to(most);
    let a = magnitude(v.x) + 1;
    let b = magnitude(v.y) + 1;
    let k = most - most / (SCALE as int) - 1;
    let s = SCALE as int;
    lemma_scaled_to_norm(d, most);
    assert(a * a + b * b >= 2) by (nonlinear_arith)
        requires
            a >= 1,
            b >= 1,
    ;
    if k >= 1 {
        assert(d.norm_sq() >= s * s) by (nonlinear_arith)
            requires
                d.norm_sq() == d.x * d.x + d.y * d.y,
                (d.x == s && d.y == 0) || (d.x == hx * s && d.y == hy * s && (hx != 0 || hy != 0)),
                s > 0,
        ;
        lemma_length_dominates(d);
        let c = ceil_sqrt(d.norm_sq());
        if c < s {
            lemma_square_monotonic(c, s - 1);
            assert((s - 1) * (s - 1) < s * s) by (nonlinear_arith)
                requires
                    s >= 1,
            ;
        }
        lemma_scaled_to_length(d, most);
        assert((c - 1) * most >= k * c && k * c >= 0) by (nonlinear_arith)
            requires
                c >= s,
                s == 1_000_000,
                k == most - most / 1_000_000 - 1,
                k >= 1,
                most < s * (most / 1_000_000) + s,
        ;
        lemma_square_monotonic(k * c, (c - 1) * most);
        assert((k * c) * (k * c) == (k * k) * (c * c)) by (nonlinear_arith);
        assert(a * a + b * b > k * k) by (nonlinear_arith)
            requires
                (a * a + b * b) * (c * c) > ((c - 1) * most) * ((c - 1) * most),
                ((c - 1) * most) * ((c - 1) * most) >= (k * k) * (c * c),
                c >= 1,
        ;
    } else {
        assert(k * k <= 1) by (nonlinear_arith)
            requires
                -1 <= k <= 0,
        ;
    }
}

/// Makes the agent that the given draws stand for.
pub fn spawn_one(
    x: i64,
    y: i64,
    hx: i64,
    hy: i64,
    layer: u32,
    boid_scale: &BoidScale,
    boid_max_speed: &BoidMaxSpeed,
    boid_perception_radius: &BoidPerceptionRadius,
) -> (r: Agent)
    requires
        in_range(x as int),
        in_range(y as int),
        -SCALE <= hx <= SCALE,
        -SCALE <= hy <= SCALE,
        boid_scale.wf(),
        boid_max_speed.wf(),
        boid_perception_radius.wf(),
    ensures
        r == spawned(
            x as int,
            y as int,
            hx as int,
            hy as int,
            layer as int,
            *boid_scale,
            *boid_max_speed,
            *boid_perception_radius,
        ),
        r.wf(),
        r.kinematic.at_full_speed(),
{
    proof {
        lemma_spawn_speed(hx as int, hy as int, boid_max_speed.0 as int);
    }
    let direction = if hx == 0 && hy == 0 {
        Vec2 { x: SCALE, y: 0 }
    } else {
        Vec2 { x: hx * SCALE, y: hy * SCALE }
    };
    let velocity = direction.scaled_to(boid_max_speed.0);
    Agent {
        transform: Transform {
            translation: Vec3 { x, y, z: layer as i64 },
            heading: Vec2 { x: SCALE, y: 0 },
            scale: Vec3 { x: boid_scale.0, y: boid_scale.0, z: boid_scale.0 },
        },
        kinematic: Kinematic2D {
            move_speed: boid_max_speed.0,
            acceleration: Vec2 { x: 0, y: 0 },
            velocity,
        },
        boid: Boid {
            perception_radius: boid_perception_radius.0,
            separation_distance: boid_perception_radius.0 / 2,
        },
        desired: DesiredAcceleration2D(Vec2 { x: 0, y: 0 }),
    }
}

/// Draws a coordinate on an axis `bound` long: a number from zero up to,
/// but not including, `bound`; zero where the axis has no length.
fn draw_coordinate(rng: &mut rand::rngs::StdRng, bound: i64) -> (r: i64)
    requires
        0 <= bound,
    ensures
        0 <= r,
        r < bound || r == 0,
{
    if bound > 0 {
        draw_between(rng, 0, bound)
    } else {
        0
    }
}

/// Draws a heading: a point of the square around the origin. A point
/// outside the unit disc, or at the origin, is drawn again, a few times at
/// most, so that no direction is favoured.
fn draw_heading(rng: &mut rand::rngs::StdRng) -> (r: (i64, i64))
    ensures
        -SCALE <= r.0 <= SCALE,
        -SCALE <= r.1 <= SCALE,
{
    let mut hx = draw_between(rng, -SCALE, SCALE + 1);
    let mut hy = draw_between(rng, -SCALE, SCALE + 1);
    let mut tries: u32 = 0;
    while tries < 16 && !on_disc(hx, hy)
        invariant
            -SCALE <= hx <= SCALE,
            -SCALE <= hy <= SCALE,
            tries <= 16,
        decreases 16 - tries,
    {
        hx = draw_between(rng, -SCALE, SCALE + 1);
        hy = draw_between(rng, -SCALE, SCALE + 1);
        tries = tries + 1;
    }
    (hx, hy)
}

/// Tells whether a heading draw lies on the unit disc and off the origin.
fn on_disc(hx: i64, hy: i64) -> (b: bool)
    requires
        -SCALE <= hx <= SCALE,
        -SCALE <= hy <= SCALE,
    ensures
        b == (0 < hx * hx + hy * hy <= SCALE * SCALE),
{
    proof {
        lemma_mul_bound(hx as int, hx as int, SCALE as int, SCALE as int);
        lemma_mul_bound(hy as int, hy as int, SCALE as int, SCALE as int);
    }
    let n = hx * hx + hy * hy;
    0 < n && n <= SCALE * SCALE
}

/// Creates the flock: `boid_count` agents at random positions of the plane,
/// each moving at full speed in a random direction, to run under `rules`.
///
/// The draws come from a generator that is made from `seed`.
pub fn spawn_boids(
    boid_count: &BoidCount,
    boid_scale: &BoidScale,
    boid_max_speed: &BoidMaxSpeed,
    boid_perception_radius: &BoidPerceptionRadius,
    width: i64,
    height: i64,
    rules: Rules,
    seed: u64,
) -> (flock: Flock)
    requires
        boid_scale.wf(),
        boid_max_speed.wf(),
        boid_perception_radius.wf(),
        0 <= width <= EXTENT_LIMIT,
        0 <= height <= EXTENT_LIMIT,
    ensures
        flock@.len() == boid_count.0,
        flock.rules == rules,
        flock.wf(),
        forall|i: int|
            0 <= i < flock@.len() ==> is_spawn(
                #[trigger] flock@[i],
                i,
                *boid_scale,
                *boid_max_speed,
                *boid_perception_radius,
                width as int,
                height as int,
            ),
        forall|i: int| 0 <= i < flock@.len() ==> (#[trigger] flock@[i]).kinematic.at_full_speed(),
{
    let mut rng = seeded_generator(seed);
    let mut agents: Vec<Agent> = Vec::new();
    let mut i: u32 = 0;
    while i < boid_count.0
        invariant
            i <= boid_count.0,
            agents.len() == i,
            boid_scale.wf(),
            boid_max_speed.wf(),
            boid_perception_radius.wf(),
            0 <= width <= EXTENT_LIMIT,
            0 <= height <= EXTENT_LIMIT,
            forall|k: int| 0 <= k < i ==> (#[trigger] agents@[k]).wf(),
            forall|k: int| 0 <= k < i ==> (#[trigger] agents@[k]).kinematic.at_full_speed(),
            forall|k: int|
                0 <= k < i ==> is_spawn(
                    #[trigger] agents@[k],
                    k,
                    *boid_scale,
                    *boid_max_speed,
                    *boid_perception_radius,
                    width as int,
                    height as int,
                ),
        decreases boid_count.0 - i,
    {
        let x = draw_coordinate(&mut rng, width);
        let y = draw_coordinate(&mut rng, height);
        let (hx, hy) = draw_heading(&mut rng);
        let agent = spawn_one(
            x,
            y,
            hx,
            hy,
            i,
            boid_scale,
            boid_max_speed,
            boid_perception_radius,
        );
        assert(legal_draws(x as int, y as int, hx as int, hy as int, width as int, height as int));
        agents.push(agent);
        i = i + 1;
    }
    Flock { agents, rules }
}

} // verus!
