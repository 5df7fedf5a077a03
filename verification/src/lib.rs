//! Combat and movement core of a 2D action game, on fixed-point integers.
//!
//! The crate holds the rules of one simulation tick: collision response of
//! kinematic character controllers, the dash ability, short-lived damage zones
//! that hit each target once, and the damage and death pipeline. It works on
//! plain values; an engine gathers them from its world and writes the results
//! back.

use vstd::prelude::*;

pub mod attack;
pub mod behaviour;
pub mod damage_zone;
pub mod damaging_contacts;
pub mod dash;
pub mod fixed;
pub mod health;
pub mod kinematic_controller_collisions;
pub mod layers;
pub mod movement;
pub mod time;

verus! {

/// Stable handle of an entity of the simulation: the bits of the engine's own identifier.
pub type EntityId = u64;

} // verus!
