//! Movement driven by intent.

use vstd::prelude::*;
use crate::fixed::{Dir2, Vec2, SCALE, scale_direction};

verus! {

/// The movement intent of an entity: a vector no longer than one.
#[derive(Clone, Copy, PartialEq, Eq, Structural, Debug)]
pub struct MovementController(pub Dir2);

impl Default for MovementController {
    fn default() -> (controller: MovementController)
        ensures
            controller.0@ == (0int, 0int),
    {
        MovementController(Dir2::zero())
    }
}

/// The intent that a reading of the movement axes gives: nothing while the
/// axes are at rest, the reading itself while it is no longer than one, and
/// its direction otherwise.
pub open spec fn movement_intent(axes: Option<Dir2>) -> (int, int) {
    match axes {
        None => (0int, 0int),
        Some(reading) => {
            if reading.spec_length_squared() > SCALE * SCALE {
                reading.spec_to_vec2().spec_normalize_or_zero()
            } else {
                reading@
            }
        },
    }
}

/// Records the reading of the movement axes (`None` while they are at rest)
/// as the controller's intent, so that moving diagonally is no faster than
/// moving along an axis.
pub fn record_movement_controller(controller: &mut MovementController, axes: Option<Dir2>)
    ensures
        final(controller).0@ == movement_intent(axes),
{
    let intent: Dir2 = match axes {
        None => Dir2::zero(),
        Some(reading) => {
            if reading.length_squared() > 1_000_000_000_000 {
                reading.to_vec2().normalize_or_zero()
            } else {
                reading
            }
        },
    };
    controller.0 = intent;
}

/// How an entity moves: whether its intent drives its velocity, and how fast.
#[derive(Clone, Copy, PartialEq, Eq, Structural, Debug)]
pub struct Movement {
    pub controls_rigid_body: bool,
    pub speed: i64,
}

impl Movement {
    pub fn new(speed: i64) -> (movement: Movement)
        ensures
            movement.controls_rigid_body,
            movement.speed == speed,
    {
        Movement { controls_rigid_body: true, speed }
    }

    /// Hands the velocity to the intent (`true`) or takes it away (`false`).
    pub fn toggle_control(&mut self, toggle: bool)
        ensures
            final(self).controls_rigid_body == toggle,
            final(self).speed == old(self).speed,
    {
        self.controls_rigid_body = toggle;
    }
}

/// Drives the velocity from the intent: `speed` times the intent while the
/// movement has control, and nothing otherwise.
pub fn apply_movement(
    controller: &MovementController,
    movement: &Movement,
    linear_velocity: &mut Vec2,
)
    ensures
        *final(linear_velocity) == if movement.controls_rigid_body {
            scale_direction(controller.0@, movement.speed as int)
        } else {
            *old(linear_velocity)
        },
{
    if movement.controls_rigid_body {
        *linear_velocity = controller.0.scaled(movement.speed);
    }
}

} // verus!
