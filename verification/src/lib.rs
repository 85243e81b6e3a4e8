//! Flocking ("boid") simulation on a bounded plane, verified.
//!
//! A flock is a fixed population of agents. Each frame runs three phases
//! over it: the steering phase asks the rules what each agent wants, from
//! the flock as the last frame left it; the integration phase moves every
//! agent and holds it to its speed limit; the boundary wrap brings back the
//! agents that left the plane.
//!
//! All arithmetic is fixed-point (see [`fixed`]): a number is held as so
//! many millionths, rounding is toward zero, and every result is stated
//! exactly, digit for digit, by the contract of the function that gives it.
//!
//! - [`fixed`], [`vector`]: numbers and vectors.
//! - [`components`], [`resources`]: what an agent and a flock are made of.
//! - [`neighbours`]: who perceives whom.
//! - [`flocking_rules`], [`boid_rules`]: the two families of rules.
//! - [`systems`]: the phases of a frame.
//! - [`spawn`], [`random`]: creation of a flock from random draws.
//! - [`laws`]: what holds of every flock and every frame.

pub mod boid_rules;
pub mod components;
pub mod fixed;
pub mod flocking_rules;
pub mod laws;
pub mod neighbours;
pub mod random;
pub mod resources;
pub mod spawn;
pub mod systems;
pub mod vector;
