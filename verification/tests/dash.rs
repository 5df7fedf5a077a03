use combat_core::dash::{
    apply_dash, clamp_turn, max_turn, record_dash_controller, Dash, DashController, DashState,
    Drive, DASH_ROTATION_SPEED,
};
use combat_core::fixed::{Dir2, Vec2, SCALE};
use combat_core::movement::Movement;
use combat_core::time::Span;

fn player_dash() -> Dash {
    Dash::new(
        600_000_000,
        Span::from_millis(200),
        Span::from_millis(100),
        Span::from_secs(2),
    )
}

#[test]
fn new_dash_is_ready() {
    let dash = player_dash();
    assert_eq!(dash.state, DashState::Ready);
    assert_eq!(dash.speed, 600_000_000);
    assert_eq!(dash.duration, Span::from_millis(200));
    assert_eq!(dash.landing_duration, Span::from_millis(100));
    assert_eq!(dash.cooldown, Span::from_secs(2));
    assert_eq!(DashState::default(), DashState::Ready);
}

#[test]
fn new_controller_looks_along_the_first_axis() {
    let controller = DashController::new();
    assert_eq!(controller.last_direction, Dir2::x_axis());
    assert!(!controller.intent);
}

#[test]
fn dash_goes_through_its_states_in_order() {
    let mut dash = player_dash();
    dash.apply_delta_time(Span::from_secs(10));
    assert_eq!(dash.state, DashState::Ready);
    dash.request_dash();
    assert_eq!(dash.state, DashState::Dashing(Span::from_millis(200)));
    dash.apply_delta_time(Span::from_millis(16));
    assert_eq!(dash.state, DashState::Dashing(Span::from_millis(184)));
    dash.apply_delta_time(Span::from_millis(184));
    assert_eq!(dash.state, DashState::Landing(Span::from_millis(100)));
    dash.apply_delta_time(Span::from_millis(99));
    assert_eq!(dash.state, DashState::Landing(Span::from_millis(1)));
    dash.apply_delta_time(Span::from_millis(16));
    assert_eq!(dash.state, DashState::OnCooldown(Span::from_secs(2)));
    dash.apply_delta_time(Span::from_millis(1999));
    assert_eq!(dash.state, DashState::OnCooldown(Span::from_millis(1)));
    dash.apply_delta_time(Span::from_millis(1));
    assert_eq!(dash.state, DashState::Ready);
}

#[test]
fn one_long_tick_advances_one_state_only() {
    let mut dash = player_dash();
    dash.request_dash();
    dash.apply_delta_time(Span::from_secs(100));
    assert_eq!(dash.state, DashState::Landing(Span::from_millis(100)));
    dash.apply_delta_time(Span::from_secs(100));
    assert_eq!(dash.state, DashState::OnCooldown(Span::from_secs(2)));
    dash.apply_delta_time(Span::from_secs(100));
    assert_eq!(dash.state, DashState::Ready);
}

#[test]
fn tick_of_no_time_keeps_a_running_state() {
    let mut dash = player_dash();
    dash.request_dash();
    dash.apply_delta_time(Span::zero());
    assert_eq!(dash.state, DashState::Dashing(Span::from_millis(200)));
}

#[test]
fn state_without_time_left_ends_on_the_next_tick() {
    let mut dash = Dash::new(1, Span::zero(), Span::zero(), Span::zero());
    dash.request_dash();
    assert_eq!(dash.state, DashState::Dashing(Span::zero()));
    dash.apply_delta_time(Span::zero());
    assert_eq!(dash.state, DashState::Landing(Span::zero()));
    dash.apply_delta_time(Span::zero());
    assert_eq!(dash.state, DashState::OnCooldown(Span::zero()));
    dash.apply_delta_time(Span::zero());
    assert_eq!(dash.state, DashState::Ready);
}

#[test]
fn request_outside_ready_has_no_effect() {
    for state in [
        DashState::Dashing(Span::from_millis(50)),
        DashState::Landing(Span::from_millis(50)),
        DashState::OnCooldown(Span::from_millis(50)),
    ] {
        let mut dash = player_dash();
        dash.state = state;
        let before = dash;
        dash.request_dash();
        assert_eq!(dash, before);
    }
}

#[test]
fn direction_is_remembered_through_ticks_without_intent() {
    let mut controller = DashController::new();
    record_dash_controller(&mut controller, false, Some(Dir2::new(0, -500_000)));
    assert_eq!(controller.last_direction, Dir2::new(0, -SCALE));
    record_dash_controller(&mut controller, true, None);
    assert_eq!(controller.last_direction, Dir2::new(0, -SCALE));
    assert!(controller.intent);
    record_dash_controller(&mut controller, false, Some(Dir2::zero()));
    assert_eq!(controller.last_direction, Dir2::new(0, -SCALE));
    assert!(!controller.intent);
}

#[test]
fn negligible_intent_does_not_change_the_direction() {
    // 223_606^2 < 0.05 * 10^12 < 223_607^2
    let mut controller = DashController::new();
    record_dash_controller(&mut controller, false, Some(Dir2::new(0, 223_606)));
    assert_eq!(controller.last_direction, Dir2::x_axis());
    record_dash_controller(&mut controller, false, Some(Dir2::new(0, 223_607)));
    assert_eq!(controller.last_direction, Dir2::new(0, SCALE));
}

#[test]
fn turn_limit_grows_with_the_tick() {
    assert_eq!(DASH_ROTATION_SPEED, 7_500_000);
    assert_eq!(max_turn(Span::from_millis(16)), 120_000);
    assert_eq!(max_turn(Span::from_secs(1)), 7_500_000);
    assert_eq!(max_turn(Span::zero()), 0);
    assert_eq!(max_turn(Span::from_nanos(133)), 0);
    assert_eq!(max_turn(Span::from_nanos(134)), 1);
    assert_eq!(max_turn(Span::from_nanos(u64::MAX)), 138_350_580_552_821_637);
}

#[test]
fn turn_is_clamped_both_ways() {
    assert_eq!(clamp_turn(50_000, 120_000), 50_000);
    assert_eq!(clamp_turn(-50_000, 120_000), -50_000);
    assert_eq!(clamp_turn(3_000_000, 120_000), 120_000);
    assert_eq!(clamp_turn(-3_000_000, 120_000), -120_000);
    assert_eq!(clamp_turn(i64::MIN, i64::MAX), -i64::MAX);
    assert_eq!(clamp_turn(7, 0), 0);
}

#[test]
fn dash_from_rest_snaps_to_the_remembered_direction() {
    let mut controller = DashController::new();
    record_dash_controller(&mut controller, true, Some(Dir2::new(0, SCALE)));
    let mut dash = player_dash();
    let mut movement = Movement::new(200_000_000);
    let drive =
        apply_dash(&controller, &mut dash, &mut movement, Vec2::zero(), Span::from_millis(16));
    assert_eq!(dash.state, DashState::Dashing(Span::from_millis(200)));
    assert!(!movement.controls_rigid_body);
    assert_eq!(drive, Drive::Assign(Vec2::new(0, 600_000_000)));
}

#[test]
fn slow_velocity_counts_as_rest() {
    let controller = DashController::new();
    let mut dash = player_dash();
    dash.state = DashState::Dashing(Span::from_millis(100));
    let mut movement = Movement::new(200_000_000);
    let slow = Vec2::new(223_606, 0);
    let drive = apply_dash(&controller, &mut dash, &mut movement, slow, Span::from_millis(16));
    assert_eq!(drive, Drive::Assign(Vec2::new(600_000_000, 0)));
    let fast = Vec2::new(223_607, 0);
    let drive = apply_dash(&controller, &mut dash, &mut movement, fast, Span::from_millis(16));
    assert_eq!(
        drive,
        Drive::Steer { toward: Dir2::x_axis(), max_angle: 120_000, speed: 600_000_000 }
    );
}

#[test]
fn dash_in_motion_steers_toward_the_remembered_direction() {
    let mut controller = DashController::new();
    record_dash_controller(&mut controller, true, Some(Dir2::new(0, SCALE)));
    let mut dash = player_dash();
    let mut movement = Movement::new(200_000_000);
    let drive = apply_dash(
        &controller,
        &mut dash,
        &mut movement,
        Vec2::new(200_000_000, 0),
        Span::from_millis(16),
    );
    assert_eq!(
        drive,
        Drive::Steer { toward: Dir2::new(0, SCALE), max_angle: 120_000, speed: 600_000_000 }
    );
    assert!(!movement.controls_rigid_body);
}

#[test]
fn landing_stops_and_cooldown_gives_control_back() {
    let controller = DashController::new();
    let mut dash = player_dash();
    dash.state = DashState::Dashing(Span::from_millis(10));
    let mut movement = Movement::new(200_000_000);
    let velocity = Vec2::new(600_000_000, 0);
    let drive = apply_dash(&controller, &mut dash, &mut movement, velocity, Span::from_millis(16));
    assert_eq!(dash.state, DashState::Landing(Span::from_millis(100)));
    assert_eq!(drive, Drive::Assign(Vec2::zero()));
    assert!(!movement.controls_rigid_body);
    let drive =
        apply_dash(&controller, &mut dash, &mut movement, Vec2::zero(), Span::from_millis(100));
    assert_eq!(dash.state, DashState::OnCooldown(Span::from_secs(2)));
    assert_eq!(drive, Drive::Released);
    assert!(movement.controls_rigid_body);
    let drive =
        apply_dash(&controller, &mut dash, &mut movement, Vec2::zero(), Span::from_secs(2));
    assert_eq!(dash.state, DashState::Ready);
    assert_eq!(drive, Drive::Released);
    assert!(movement.controls_rigid_body);
    assert_eq!(movement.speed, 200_000_000);
}

#[test]
fn request_during_a_dash_is_ignored_by_the_tick() {
    let mut controller = DashController::new();
    controller.intent = true;
    let mut dash = player_dash();
    dash.state = DashState::OnCooldown(Span::from_secs(1));
    let mut movement = Movement::new(1);
    let drive =
        apply_dash(&controller, &mut dash, &mut movement, Vec2::zero(), Span::from_millis(16));
    assert_eq!(dash.state, DashState::OnCooldown(Span::from_millis(984)));
    assert_eq!(drive, Drive::Released);
}

#[test]
fn request_on_the_tick_that_ends_the_cooldown_starts_a_dash() {
    let mut controller = DashController::new();
    controller.intent = true;
    let mut dash = player_dash();
    dash.state = DashState::OnCooldown(Span::from_millis(5));
    let mut movement = Movement::new(1);
    apply_dash(&controller, &mut dash, &mut movement, Vec2::zero(), Span::from_millis(16));
    assert_eq!(dash.state, DashState::Dashing(Span::from_millis(200)));
    assert!(!movement.controls_rigid_body);
}
