//! The parameters that a flock is created with.

use crate::fixed::{EXTENT_LIMIT, LIMIT};
use vstd::prelude::*;

verus! {

/// Number of agents in the flock.
#[derive(Clone, Copy, Debug, PartialEq, Eq, Structural)]
pub struct BoidCount(pub u32);

/// Size at which an agent is drawn.
#[derive(Clone, Copy, Debug, PartialEq, Eq, Structural)]
pub struct BoidScale(pub i64);

/// Greatest speed of an agent.
#[derive(Clone, Copy, Debug, PartialEq, Eq, Structural)]
pub struct BoidMaxSpeed(pub i64);

/// Distance within which an agent perceives others.
#[derive(Clone, Copy, Debug, PartialEq, Eq, Structural)]
pub struct BoidPerceptionRadius(pub i64);

impl BoidScale {
    /// The size is a legal extent.
    pub open spec fn wf(&self) -> bool {
        0 <= self.0 <= EXTENT_LIMIT
    }

    /// Tells whether the size is a legal extent.
    pub fn is_well_formed(&self) -> (b: bool)
        ensures
            b == self.wf(),
    {
        0 <= self.0 && self.0 <= EXTENT_LIMIT
    }
}

impl BoidMaxSpeed {
    /// The speed is storable and not negative.
    pub open spec fn wf(&self) -> bool {
        0 <= self.0 <= LIMIT
    }

    /// Tells whether the speed is storable and not negative.
    pub fn is_well_formed(&self) -> (b: bool)
        ensures
            b == self.wf(),
    {
        0 <= self.0 && self.0 <= LIMIT
    }
}

impl BoidPerceptionRadius {
    /// The radius is storable and not negative.
    pub open spec fn wf(&self) -> bool {
        0 <= self.0 <= LIMIT
    }

    /// Tells whether the radius is storable and not negative.
    pub fn is_well_formed(&self) -> (b: bool)
        ensures
            b == self.wf(),
    {
        0 <= self.0 && self.0 <= LIMIT
    }
}

} // verus!
