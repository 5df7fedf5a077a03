use combat_core::behaviour::follow::{follow_player, FollowPlayer};
use combat_core::fixed::{Dir2, Vec2, SCALE};
use combat_core::movement::{
    apply_movement, record_movement_controller, Movement, MovementController,
};

#[test]
fn resting_axes_give_no_intent() {
    let mut controller = MovementController(Dir2::x_axis());
    record_movement_controller(&mut controller, None);
    assert_eq!(controller, MovementController::default());
    assert_eq!(controller.0, Dir2::zero());
}

#[test]
fn short_intent_is_kept_as_it_is() {
    let mut controller = MovementController::default();
    record_movement_controller(&mut controller, Some(Dir2::new(300_000, -400_000)));
    assert_eq!(controller.0, Dir2::new(300_000, -400_000));
    record_movement_controller(&mut controller, Some(Dir2::new(600_000, 800_000)));
    assert_eq!(controller.0, Dir2::new(600_000, 800_000));
}

#[test]
fn diagonal_intent_is_cut_to_length_one() {
    let mut controller = MovementController::default();
    record_movement_controller(&mut controller, Some(Dir2::new(SCALE, SCALE)));
    // floor(sqrt(2 * 10^12)) = 1_414_213; 10^12 / 1_414_213 = 707_107
    assert_eq!(controller.0, Dir2::new(707_107, 707_107));
}

#[test]
fn movement_drives_velocity_while_it_has_control() {
    let controller = MovementController(Dir2::new(600_000, -800_000));
    let mut movement = Movement::new(200_000_000);
    assert!(movement.controls_rigid_body);
    let mut velocity = Vec2::new(1, 1);
    apply_movement(&controller, &movement, &mut velocity);
    assert_eq!(velocity, Vec2::new(120_000_000, -160_000_000));
    movement.toggle_control(false);
    assert_eq!(movement, Movement { controls_rigid_body: false, speed: 200_000_000 });
    let mut velocity = Vec2::new(1, 1);
    apply_movement(&controller, &movement, &mut velocity);
    assert_eq!(velocity, Vec2::new(1, 1));
    movement.toggle_control(true);
    assert!(movement.controls_rigid_body);
}

#[test]
fn follower_walks_toward_a_far_player() {
    let follow = FollowPlayer { until_distance: 5_000_000 };
    let mut controller = MovementController::default();
    follow_player(
        &follow,
        &mut controller,
        Vec2::new(0, 0),
        Some(Vec2::new(30_000_000, -40_000_000)),
    );
    assert_eq!(controller.0, Dir2::new(600_000, -800_000));
}

#[test]
fn follower_stops_near_the_player() {
    // The squared distance is compared: 2^2 + 1^2 = 5 is near enough, 6 is not.
    let follow = FollowPlayer { until_distance: 5_000_000 };
    let mut controller = MovementController(Dir2::x_axis());
    follow_player(
        &follow,
        &mut controller,
        Vec2::new(10_000_000, 10_000_000),
        Some(Vec2::new(12_000_000, 11_000_000)),
    );
    assert_eq!(controller.0, Dir2::zero());
    follow_player(
        &follow,
        &mut controller,
        Vec2::new(10_000_000, 10_000_000),
        Some(Vec2::new(12_000_000, 11_000_001)),
    );
    assert_ne!(controller.0, Dir2::zero());
}

#[test]
fn follower_without_a_player_keeps_its_intent() {
    let follow = FollowPlayer { until_distance: 5_000_000 };
    let mut controller = MovementController(Dir2::new(1, 2));
    follow_player(&follow, &mut controller, Vec2::zero(), None);
    assert_eq!(controller.0, Dir2::new(1, 2));
}

#[test]
fn follower_with_a_negative_distance_never_stops() {
    let follow = FollowPlayer { until_distance: -1 };
    let mut controller = MovementController(Dir2::x_axis());
    follow_player(&follow, &mut controller, Vec2::zero(), Some(Vec2::zero()));
    // The direction of the zero vector is zero, but it was computed, not chosen.
    assert_eq!(controller.0, Dir2::zero());
    follow_player(&follow, &mut controller, Vec2::zero(), Some(Vec2::new(0, 3)));
    assert_eq!(controller.0, Dir2::new(0, SCALE));
}
