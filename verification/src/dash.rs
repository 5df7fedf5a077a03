//! The dash ability: a timed cycle of states that overrides normal movement.

use vstd::prelude::*;
use crate::fixed::{Dir2, Vec2, SCALE, scale_direction};
use crate::movement::Movement;
use crate::time::Span;

verus! {

/// How fast a dash may turn, in fixed-point radians per second.
pub const DASH_ROTATION_SPEED: i64 = 7_500_000;

/// A vector whose squared length is no more than this counts as zero:
/// 0.05, in units of `1 / (SCALE * SCALE)`.
pub const NEGLIGIBLE_LENGTH_SQUARED: i64 = 50_000_000_000;

/// What the player asks of the dash: the direction to dash in, and whether
/// the dash was asked for on this tick.
#[derive(Clone, Copy, PartialEq, Eq, Structural, Debug)]
pub struct DashController {
    /// The direction of the last movement intent that was not negligible.
    pub last_direction: Dir2,
    pub intent: bool,
}

impl DashController {
    pub fn new() -> (controller: DashController)
        ensures
            controller.last_direction@ == (SCALE as int, 0int),
            !controller.intent,
    {
        DashController { last_direction: Dir2::x_axis(), intent: false }
    }
}

/// The direction that a dash keeps in mind after a reading of the movement
/// axes: the reading's direction where its squared length is more than
/// negligible, and what it was before otherwise.
pub open spec fn remembered_direction(before: Dir2, axes: Option<Dir2>) -> (int, int) {
    match axes {
        Some(reading) if reading.spec_length_squared() > NEGLIGIBLE_LENGTH_SQUARED =>
            reading.spec_to_vec2().spec_normalize_or_zero(),
        _ => before@,
    }
}

/// Records whether the dash was asked for on this tick, and the direction of
/// the movement axes (`None` while they are at rest).
pub fn record_dash_controller(controller: &mut DashController, pressed: bool, axes: Option<Dir2>)
    ensures
        final(controller).intent == pressed,
        final(controller).last_direction@ == remembered_direction(
            old(controller).last_direction,
            axes,
        ),
{
    controller.intent = pressed;
    match axes {
        Some(reading) => {
            if reading.length_squared() > NEGLIGIBLE_LENGTH_SQUARED {
                controller.last_direction = reading.to_vec2().normalize_or_zero();
            }
        },
        None => {},
    }
}

/// The state of the dash. The timed states hold the time that is left.
#[derive(Clone, Copy, PartialEq, Eq, Structural, Debug)]
pub enum DashState {
    Ready,
    Dashing(Span),
    Landing(Span),
    OnCooldown(Span),
}

impl Default for DashState {
    fn default() -> (state: DashState)
        ensures
            state == DashState::Ready,
    {
        DashState::Ready
    }
}

impl DashState {
    /// The place of the state in the cycle.
    pub open spec fn phase(self) -> int {
        match self {
            DashState::Ready => 0,
            DashState::Dashing(_) => 1,
            DashState::Landing(_) => 2,
            DashState::OnCooldown(_) => 3,
        }
    }

    /// The dash has taken the velocity away from normal movement.
    pub open spec fn overrides_movement(self) -> bool {
        self is Dashing || self is Landing
    }
}

/// The dash ability of an entity.
#[derive(Clone, Copy, PartialEq, Eq, Structural, Debug)]
pub struct Dash {
    pub state: DashState,
    pub speed: i64,
    pub duration: Span,
    pub landing_duration: Span,
    pub cooldown: Span,
}

impl Dash {
    pub fn new(speed: i64, duration: Span, landing_duration: Span, cooldown: Span) -> (dash: Dash)
        ensures
            dash == (Dash { state: DashState::Ready, speed, duration, landing_duration, cooldown }),
    {
        Dash { state: DashState::Ready, speed, duration, landing_duration, cooldown }
    }

    /// The dash after `delta` has passed: a timed state counts down, and
    /// where nothing is left of it the next state begins with its full time.
    pub open spec fn after_delta(self, delta: Span) -> Dash {
        match self.state {
            DashState::Ready => self,
            DashState::Dashing(left) => Dash {
                state: if left.nanos > delta.nanos {
                    DashState::Dashing(left.spec_saturating_sub(delta))
                } else {
                    DashState::Landing(self.landing_duration)
                },
                ..self
            },
            DashState::Landing(left) => Dash {
                state: if left.nanos > delta.nanos {
                    DashState::Landing(left.spec_saturating_sub(delta))
                } else {
                    DashState::OnCooldown(self.cooldown)
                },
                ..self
            },
            DashState::OnCooldown(left) => Dash {
                state: if left.nanos > delta.nanos {
                    DashState::OnCooldown(left.spec_saturating_sub(delta))
                } else {
                    DashState::Ready
                },
                ..self
            },
        }
    }

    /// The dash after it was asked for: it begins where it was ready, and is
    /// unchanged otherwise.
    pub open spec fn after_request(self) -> Dash {
        if self.state == DashState::Ready {
            Dash { state: DashState::Dashing(self.duration), ..self }
        } else {
            self
        }
    }

    /// The dash after a tick of `delta` on which it was asked for (`intent`) or not.
    pub open spec fn after_tick(self, delta: Span, intent: bool) -> Dash {
        if intent {
            self.after_delta(delta).after_request()
        } else {
            self.after_delta(delta)
        }
    }

    /// Lets `delta_time` pass.
    pub fn apply_delta_time(&mut self, delta_time: Span)
        ensures
            *final(self) == old(self).after_delta(delta_time),
    {
        match self.state {
            DashState::Dashing(duration) => {
                let left: Span = duration.saturating_sub(delta_time);
                if left.is_zero() {
                    self.state = DashState::Landing(self.landing_duration);
                } else {
                    self.state = DashState::Dashing(left);
                }
            },
            DashState::Landing(duration) => {
                let left: Span = duration.saturating_sub(delta_time);
                if left.is_zero() {
                    self.state = DashState::OnCooldown(self.cooldown);
                } else {
                    self.state = DashState::Landing(left);
                }
            },
            DashState::OnCooldown(duration) => {
                let left: Span = duration.saturating_sub(delta_time);
                if left.is_zero() {
                    self.state = DashState::Ready;
                } else {
                    self.state = DashState::OnCooldown(left);
                }
            },
            DashState::Ready => {},
        }
    }

    /// Asks for a dash. Nothing happens unless the dash is ready.
    pub fn request_dash(&mut self)
        ensures
            *final(self) == old(self).after_request(),
            old(self).state != DashState::Ready ==> *final(self) == *old(self),
    {
        match self.state {
            DashState::Ready => {
                self.state = DashState::Dashing(self.duration);
            },
            _ => {},
        }
    }
}

/// The dash moves through its states in one order only: letting time pass
/// leaves the state where it is or takes it to the next one of the cycle
/// ready, dashing, landing, on cooldown, ready; and time alone never takes it
/// out of ready.
pub proof fn law_time_moves_the_dash_forward(dash: Dash, delta: Span)
    ensures
        ({
            let before = dash.state.phase();
            let after = dash.after_delta(delta).state.phase();
            after == before || after == (before + 1) % 4
        }),
        dash.state == DashState::Ready ==> dash.after_delta(delta) == dash,
{
}

/// Asking for a dash starts it where the dash is ready and has no effect in
/// any other state.
pub proof fn law_request_counts_only_when_ready(dash: Dash)
    ensures
        dash.state == DashState::Ready ==> dash.after_request().state == DashState::Dashing(
            dash.duration,
        ),
        dash.state != DashState::Ready ==> dash.after_request() == dash,
{
}

/// What the dash does to the velocity of its entity on one tick.
#[derive(Clone, Copy, PartialEq, Eq, Structural, Debug)]
pub enum Drive {
    /// Nothing: normal movement has control.
    Released,
    /// The velocity becomes this value.
    Assign(Vec2),
    /// The velocity turns toward `toward` by the angle between the two,
    /// clamped to `max_angle` either way, and takes the length `speed`.
    Steer { toward: Dir2, max_angle: i64, speed: i64 },
}

/// The largest angle by which a dash turns within `delta`, in fixed-point radians.
pub open spec fn spec_max_turn(delta: Span) -> int {
    DASH_ROTATION_SPEED * delta.nanos / 1_000_000_000
}

/// The largest angle by which a dash turns within `delta`, in fixed-point radians.
pub fn max_turn(delta: Span) -> (angle: i64)
    ensures
        angle as int == spec_max_turn(delta),
        angle >= 0,
{
    let scaled: u128 = 7_500_000u128 * (delta.nanos as u128);
    (scaled / 1_000_000_000) as i64
}

/// `angle` clamped into `[-max_angle, max_angle]`.
pub open spec fn spec_clamp_turn(angle: int, max_angle: int) -> int {
    if angle < -max_angle {
        -max_angle
    } else if angle > max_angle {
        max_angle
    } else {
        angle
    }
}

/// `angle` clamped into `[-max_angle, max_angle]`.
pub fn clamp_turn(angle: i64, max_angle: i64) -> (turn: i64)
    requires
        max_angle >= 0,
    ensures
        turn as int == spec_clamp_turn(angle as int, max_angle as int),
{
    if angle < -max_angle {
        -max_angle
    } else if angle > max_angle {
        max_angle
    } else {
        angle
    }
}

/// What a dash in `state` does to a velocity of `linear_velocity`.
pub open spec fn dash_drive(
    state: DashState,
    speed: i64,
    last_direction: Dir2,
    linear_velocity: Vec2,
    delta: Span,
) -> Drive {
    match state {
        DashState::Dashing(_) => {
            if linear_velocity.spec_length_squared() <= NEGLIGIBLE_LENGTH_SQUARED {
                Drive::Assign(scale_direction(last_direction@, speed as int))
            } else {
                Drive::Steer {
                    toward: last_direction,
                    max_angle: spec_max_turn(delta) as i64,
                    speed,
                }
            }
        },
        DashState::Landing(_) => Drive::Assign(Vec2 { x: 0, y: 0 }),
        DashState::OnCooldown(_) => Drive::Released,
        DashState::Ready => Drive::Released,
    }
}

/// One tick of the dash of an entity: time passes, a dash that was asked for
/// begins if it can, and the state decides who drives the velocity. While
/// dashing or landing the movement has no control; in every other state it
/// has.
pub fn apply_dash(
    controller: &DashController,
    dash: &mut Dash,
    movement: &mut Movement,
    linear_velocity: Vec2,
    delta: Span,
) -> (drive: Drive)
    ensures
        *final(dash) == old(dash).after_tick(delta, controller.intent),
        final(movement).speed == old(movement).speed,
        final(movement).controls_rigid_body == !final(dash).state.overrides_movement(),
        drive == dash_drive(
            final(dash).state,
            final(dash).speed,
            controller.last_direction,
            linear_velocity,
            delta,
        ),
{
    dash.apply_delta_time(delta);
    if controller.intent {
        dash.request_dash();
    }
    match dash.state {
        DashState::Dashing(_) => {
            movement.toggle_control(false);
            if linear_velocity.length_squared() <= 50_000_000_000 {
                Drive::Assign(controller.last_direction.scaled(dash.speed))
            } else {
                Drive::Steer {
                    toward: controller.last_direction,
                    max_angle: max_turn(delta),
                    speed: dash.speed,
                }
            }
        },
        DashState::Landing(_) => {
            movement.toggle_control(false);
            Drive::Assign(Vec2::zero())
        },
        DashState::OnCooldown(_) => {
            movement.toggle_control(true);
            Drive::Released
        },
        DashState::Ready => {
            movement.toggle_control(true);
            Drive::Released
        },
    }
}

} // verus!
