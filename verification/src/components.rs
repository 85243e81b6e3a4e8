//! What an agent is made of.

use crate::fixed::{in_range, lemma_mul_bound, magnitude, EXTENT_LIMIT, LIMIT, SCALE};
use crate::vector::{MathVec2, Vec2, Vec3};
use vstd::prelude::*;

verus! {

/// Where an agent is, which way it faces and how large it is drawn.
///
/// `translation.z` is the drawing layer and takes no part in the motion.
/// `heading` is the last non-null velocity: the agent's orientation is the
/// angle of that vector.
#[derive(Clone, Copy, Debug, PartialEq, Eq, Structural)]
pub struct Transform {
    pub translation: Vec3,
    pub heading: Vec2,
    pub scale: Vec3,
}

/// The perception of an agent.
#[derive(Clone, Copy, Debug, PartialEq, Eq, Structural)]
pub struct Boid {
    /// Distance within which other agents are neighbours.
    pub perception_radius: i64,
    /// Distance within which a neighbour repels, under the velocity rules.
    pub separation_distance: i64,
}

/// The motion of an agent.
#[derive(Clone, Copy, Debug, PartialEq, Eq, Structural)]
pub struct Kinematic2D {
    /// Greatest speed the agent moves at.
    pub move_speed: i64,
    pub acceleration: Vec2,
    pub velocity: Vec2,
}

/// The steering that the rules ask of an agent for the coming integration.
#[derive(Clone, Copy, Debug, PartialEq, Eq, Structural)]
pub struct DesiredAcceleration2D(pub Vec2);

/// One agent of the flock.
#[derive(Clone, Copy, Debug, PartialEq, Eq, Structural)]
pub struct Agent {
    pub transform: Transform,
    pub kinematic: Kinematic2D,
    pub boid: Boid,
    pub desired: DesiredAcceleration2D,
}

impl Transform {
    /// Position in the plane.
    pub open spec fn position(&self) -> MathVec2 {
        MathVec2 { x: self.translation.x as int, y: self.translation.y as int }
    }

    /// The position is storable and the footprint has a legal extent.
    pub open spec fn wf(&self) -> bool {
        &&& in_range(self.translation.x as int)
        &&& in_range(self.translation.y as int)
        &&& 0 <= self.scale.x <= EXTENT_LIMIT
        &&& 0 <= self.scale.y <= EXTENT_LIMIT
    }

    /// Tells whether the transform is well formed.
    pub fn is_well_formed(&self) -> (b: bool)
        ensures
            b == self.wf(),
    {
        -LIMIT <= self.translation.x && self.translation.x <= LIMIT && -LIMIT
            <= self.translation.y && self.translation.y <= LIMIT && 0 <= self.scale.x
            && self.scale.x <= EXTENT_LIMIT && 0 <= self.scale.y && self.scale.y <= EXTENT_LIMIT
    }
}

impl Boid {
    /// Both distances are storable and not negative.
    pub open spec fn wf(&self) -> bool {
        &&& 0 <= self.perception_radius <= LIMIT
        &&& 0 <= self.separation_distance <= LIMIT
    }

    /// Tells whether the perception is well formed.
    pub fn is_well_formed(&self) -> (b: bool)
        ensures
            b == self.wf(),
    {
        0 <= self.perception_radius && self.perception_radius <= LIMIT && 0
            <= self.separation_distance && self.separation_distance <= LIMIT
    }
}

impl Kinematic2D {
    /// Speed limit, velocity and acceleration are storable.
    pub open spec fn wf(&self) -> bool {
        &&& 0 <= self.move_speed <= LIMIT
        &&& self.acceleration.in_range()
        &&& self.velocity.in_range()
    }

    /// The agent moves no faster than its speed limit.
    pub open spec fn speed_bounded(&self) -> bool {
        self.velocity@.norm_sq() <= self.move_speed * self.move_speed
    }

    /// The agent moves at its speed limit, as nearly as rounding allows: no
    /// faster, and, with each component of the velocity taken one unit
    /// further from zero, faster than the limit less one part in a million
    /// of it and one unit.
    pub open spec fn at_full_speed(&self) -> bool {
        let a = magnitude(self.velocity.x as int) + 1;
        let b = magnitude(self.velocity.y as int) + 1;
        let k = self.move_speed - self.move_speed / SCALE - 1;
        self.speed_bounded() && a * a + b * b > k * k
    }

    /// Tells whether the motion is well formed.
    pub fn is_well_formed(&self) -> (b: bool)
        ensures
            b == self.wf(),
    {
        0 <= self.move_speed && self.move_speed <= LIMIT && self.acceleration.is_in_range()
            && self.velocity.is_in_range()
    }

    /// Tells whether the agent moves no faster than its speed limit.
    pub fn is_speed_bounded(&self) -> (b: bool)
        requires
            self.wf(),
        ensures
            b == self.speed_bounded(),
    {
        let most: u128 = self.move_speed as u128;
        proof {
            lemma_mul_bound(most as int, most as int, LIMIT as int, LIMIT as int);
        }
        self.velocity.length_squared() <= most * most
    }
}

impl DesiredAcceleration2D {
    /// The steering is small enough to be added to an acceleration.
    pub open spec fn wf(&self) -> bool {
        self.0@.bounded(4 * LIMIT)
    }

    /// Tells whether the steering is well formed.
    pub fn is_well_formed(&self) -> (b: bool)
        ensures
            b == self.wf(),
    {
        -4 * LIMIT <= self.0.x && self.0.x <= 4 * LIMIT && -4 * LIMIT <= self.0.y && self.0.y <= 4
            * LIMIT
    }
}

impl Agent {
    /// Every part of the agent is well formed.
    pub open spec fn wf(&self) -> bool {
        &&& self.transform.wf()
        &&& self.kinematic.wf()
        &&& self.boid.wf()
        &&& self.desired.wf()
    }

    /// Tells whether the agent is well formed.
    pub fn is_well_formed(&self) -> (b: bool)
        ensures
            b == self.wf(),
    {
        self.transform.is_well_formed() && self.kinematic.is_well_formed()
            && self.boid.is_well_formed() && self.desired.is_well_formed()
    }
}

} // verus!
