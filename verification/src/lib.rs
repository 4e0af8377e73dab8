//! Arena survival simulation with a Q-learning controller.
//!
//! The arena holds a player square, enemies with three fixed behaviors
//! (chase, bounce, avoid) and projectiles. A learning agent observes a
//! discretized snapshot of the arena each tick, picks a movement action
//! by an epsilon-greedy policy over a table of value estimates, and
//! updates that table by the temporal-difference rule.
//!
//! All coordinates and value estimates are fixed-point integers: a pixel
//! is `SCALE` units, a unit of value is `QSCALE` units.

use vstd::prelude::*;

pub mod comm;
pub mod encode;
pub mod enemy;
pub mod geom;
pub mod num;
pub mod observe;
pub mod projectile;
pub mod qlearn;
pub mod rl_interface;
mod rng;
pub mod state;

verus! {

/// Fixed-point scale: one pixel of the arena is this many coordinate units.
pub const SCALE: i64 = 1000;

} // verus!
