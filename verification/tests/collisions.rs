use combat_core::fixed::{Dir2, Vec2, SCALE};
use combat_core::kinematic_controller_collisions::{
    kinematic_controller_collisions, push_back_from, slide_along, solve_contacts,
    velocity_correction, Body, BodyKind, ContactManifold, Correction, Motion,
};
use combat_core::time::Span;

fn character(position: Vec2, velocity: Vec2) -> Body {
    Body { kind: BodyKind::Kinematic, sensor: false, controller: Some(Motion { position, velocity }) }
}

fn wall(kind: BodyKind) -> Body {
    Body { kind, sensor: false, controller: None }
}

fn manifold(out_of_first: Dir2, penetrations: Vec<i64>) -> ContactManifold {
    ContactManifold {
        global_normal1: out_of_first,
        global_normal2: out_of_first.neg(),
        penetrations,
    }
}

fn tick() -> Span {
    Span::from_millis(16)
}

#[test]
fn penetration_of_a_static_wall_is_undone_exactly() {
    // The wall is to the left: the normal out of the character points left,
    // so the character is pushed to the right by the depth.
    let body = character(Vec2::new(10_000_000, 0), Vec2::new(-5_000_000, 3_000_000));
    let manifolds = vec![manifold(Dir2::new(-SCALE, 0), vec![2_000_000])];
    let got = kinematic_controller_collisions(
        Some(body),
        Some(wall(BodyKind::Static)),
        &manifolds,
        tick(),
    );
    assert_eq!(
        got,
        Some(Correction {
            first: true,
            position: Vec2::new(12_000_000, 0),
            velocity: Vec2::new(0, 3_000_000),
        })
    );
    // What is left of the penetration along the normal is nothing.
    let moved = got.unwrap().position.minus(&Vec2::new(10_000_000, 0));
    assert_eq!(2_000_000 * SCALE as i128 - moved.dot(&Dir2::new(SCALE, 0)), 0);
}

#[test]
fn depenetration_along_a_slanted_normal() {
    let body = character(Vec2::new(0, 0), Vec2::zero());
    let manifolds = vec![manifold(Dir2::new(-600_000, -800_000), vec![5_000_000])];
    let got = kinematic_controller_collisions(
        Some(body),
        Some(wall(BodyKind::Static)),
        &manifolds,
        tick(),
    )
    .unwrap();
    assert_eq!(got.position, Vec2::new(3_000_000, 4_000_000));
    let moved = got.position.minus(&Vec2::new(0, 0));
    assert_eq!(5_000_000 * SCALE as i128 - moved.dot(&Dir2::new(600_000, 800_000)), 0);
}

#[test]
fn moving_away_from_the_surface_changes_no_velocity() {
    let velocity = Vec2::new(5_000_000, 3_000_000);
    let body = character(Vec2::new(10_000_000, 0), velocity);
    let overlapping = vec![manifold(Dir2::new(-SCALE, 0), vec![2_000_000])];
    let got = kinematic_controller_collisions(
        Some(body),
        Some(wall(BodyKind::Static)),
        &overlapping,
        tick(),
    )
    .unwrap();
    assert_eq!(got.velocity, velocity);
    assert_eq!(got.position, Vec2::new(12_000_000, 0));
    let predicted = vec![manifold(Dir2::new(-SCALE, 0), vec![-2_000_000])];
    let got = kinematic_controller_collisions(
        Some(body),
        Some(wall(BodyKind::Static)),
        &predicted,
        tick(),
    )
    .unwrap();
    assert_eq!(got.velocity, velocity);
    assert_eq!(got.position, Vec2::new(10_000_000, 0));
    assert_eq!(velocity_correction(velocity, &Dir2::new(SCALE, 0), 1, tick()), velocity);
    assert_eq!(velocity_correction(velocity, &Dir2::new(SCALE, 0), -1, tick()), velocity);
}

#[test]
fn sliding_keeps_the_tangential_part() {
    let normal = Dir2::new(600_000, 800_000);
    // v . n = -10, so the normal part is -10 * n = (-6, -8).
    let v = Vec2::new(-6_000_000 + 8_000_000, -8_000_000 - 6_000_000);
    assert_eq!(slide_along(v, &normal), Vec2::new(8_000_000, -6_000_000));
    assert_eq!(velocity_correction(v, &normal, 1, tick()), Vec2::new(8_000_000, -6_000_000));
}

#[test]
fn velocity_at_rest_along_the_normal_slides_unchanged() {
    let normal = Dir2::new(SCALE, 0);
    let v = Vec2::new(0, 7_000_000);
    assert_eq!(velocity_correction(v, &normal, 5, tick()), v);
}

#[test]
fn predicted_contact_takes_what_would_penetrate() {
    // A gap of 1 closes within 16 ms at a speed of 62.5; of the 100 toward
    // the wall, 37.5 are taken away.
    let normal = Dir2::new(SCALE, 0);
    let v = Vec2::new(-100_000_000, 4_000_000);
    assert_eq!(push_back_from(v, &normal, -1_000_000, tick()), Vec2::new(-62_500_000, 4_000_000));
    assert_eq!(
        velocity_correction(v, &normal, -1_000_000, tick()),
        Vec2::new(-62_500_000, 4_000_000)
    );
    // A contact that touches without depth stops the approach.
    assert_eq!(velocity_correction(v, &normal, 0, tick()), Vec2::new(0, 4_000_000));
}

#[test]
fn predicted_contact_may_speed_up_toward_a_far_surface() {
    // The gap of 10 would take a speed of 625 to close: the impulse is
    // 100 - 625 < 0 ... along the normal, so the body is let go faster.
    let normal = Dir2::new(SCALE, 0);
    let v = Vec2::new(-100_000_000, 0);
    assert_eq!(push_back_from(v, &normal, -10_000_000, tick()), Vec2::new(-625_000_000, 0));
}

#[test]
fn impulse_never_has_a_negative_second_component() {
    // Floor below, falling: the impulse would be (0, -37.5) and is clamped.
    let up = Dir2::new(0, SCALE);
    let falling = Vec2::new(0, -100_000_000);
    assert_eq!(push_back_from(falling, &up, -1_000_000, tick()), falling);
    // Ceiling above, rising: the impulse (0, 37.5) stands.
    let down = Dir2::new(0, -SCALE);
    let rising = Vec2::new(0, 100_000_000);
    assert_eq!(push_back_from(rising, &down, -1_000_000, tick()), Vec2::new(0, 62_500_000));
}

#[test]
fn against_a_dynamic_body_only_the_position_is_corrected() {
    let velocity = Vec2::new(-5_000_000, 3_000_000);
    let body = character(Vec2::new(10_000_000, 0), velocity);
    let manifolds = vec![manifold(Dir2::new(-SCALE, 0), vec![2_000_000])];
    let got = kinematic_controller_collisions(
        Some(body),
        Some(wall(BodyKind::Dynamic)),
        &manifolds,
        tick(),
    );
    assert_eq!(
        got,
        Some(Correction { first: true, position: Vec2::new(12_000_000, 0), velocity })
    );
}

#[test]
fn second_body_is_corrected_along_the_second_normal() {
    let body = character(Vec2::new(10_000_000, 0), Vec2::new(-5_000_000, 3_000_000));
    // The normal out of the second collider (the character) points left.
    let manifolds = vec![ContactManifold {
        global_normal1: Dir2::new(SCALE, 0),
        global_normal2: Dir2::new(-SCALE, 0),
        penetrations: vec![2_000_000],
    }];
    let got = kinematic_controller_collisions(
        Some(wall(BodyKind::Static)),
        Some(body),
        &manifolds,
        tick(),
    );
    assert_eq!(
        got,
        Some(Correction {
            first: false,
            position: Vec2::new(12_000_000, 0),
            velocity: Vec2::new(0, 3_000_000),
        })
    );
}

#[test]
fn first_controller_wins_when_both_are_controllers() {
    let a = character(Vec2::new(1, 1), Vec2::zero());
    let b = character(Vec2::new(2, 2), Vec2::zero());
    let got = kinematic_controller_collisions(Some(a), Some(b), &Vec::new(), tick()).unwrap();
    assert!(got.first);
    assert_eq!(got.position, Vec2::new(1, 1));
}

#[test]
fn collisions_that_are_left_alone() {
    let body = character(Vec2::new(10_000_000, 0), Vec2::new(-5_000_000, 0));
    let manifolds = vec![manifold(Dir2::new(-SCALE, 0), vec![2_000_000])];
    // A collider without a body.
    assert_eq!(kinematic_controller_collisions(Some(body), None, &manifolds, tick()), None);
    assert_eq!(kinematic_controller_collisions(None, Some(body), &manifolds, tick()), None);
    // A sensor on either side.
    let mut sensor = wall(BodyKind::Static);
    sensor.sensor = true;
    assert_eq!(kinematic_controller_collisions(Some(body), Some(sensor), &manifolds, tick()), None);
    let mut ghost = body;
    ghost.sensor = true;
    assert_eq!(
        kinematic_controller_collisions(Some(ghost), Some(wall(BodyKind::Static)), &manifolds, tick()),
        None
    );
    // No character controller.
    assert_eq!(
        kinematic_controller_collisions(
            Some(wall(BodyKind::Kinematic)),
            Some(wall(BodyKind::Static)),
            &manifolds,
            tick()
        ),
        None
    );
    // A character controller that is not kinematic.
    let mut dynamic = body;
    dynamic.kind = BodyKind::Dynamic;
    assert_eq!(
        kinematic_controller_collisions(Some(dynamic), Some(wall(BodyKind::Static)), &manifolds, tick()),
        None
    );
}

#[test]
fn contacts_accumulate_and_the_deepest_decides() {
    let normal = Dir2::new(0, SCALE);
    let (moved, deepest) =
        solve_contacts(Vec2::new(1, 1), &normal, &vec![1_000_000, -2_000_000, 3_000_000, 0]);
    assert_eq!(moved, Vec2::new(1, 4_000_001));
    assert_eq!(deepest, Some(3_000_000));
    let (moved, deepest) = solve_contacts(Vec2::new(1, 1), &normal, &vec![-5, -2, -9]);
    assert_eq!(moved, Vec2::new(1, 1));
    assert_eq!(deepest, Some(-2));
}

#[test]
fn manifold_without_contacts_corrects_nothing() {
    let (moved, deepest) = solve_contacts(Vec2::new(1, 1), &Dir2::x_axis(), &Vec::new());
    assert_eq!((moved, deepest), (Vec2::new(1, 1), None));
    let body = character(Vec2::new(10_000_000, 0), Vec2::new(-5_000_000, 3_000_000));
    let manifolds = vec![manifold(Dir2::new(-SCALE, 0), Vec::new())];
    let got = kinematic_controller_collisions(
        Some(body),
        Some(wall(BodyKind::Static)),
        &manifolds,
        tick(),
    );
    assert_eq!(
        got,
        Some(Correction {
            first: true,
            position: Vec2::new(10_000_000, 0),
            velocity: Vec2::new(-5_000_000, 3_000_000),
        })
    );
}

#[test]
fn manifolds_are_resolved_one_after_the_other() {
    // A corner: a wall to the left and a floor below, both penetrated.
    let body = character(Vec2::new(0, 0), Vec2::new(-3_000_000, -4_000_000));
    let manifolds = vec![
        manifold(Dir2::new(-SCALE, 0), vec![1_000_000]),
        manifold(Dir2::new(0, -SCALE), vec![2_000_000, 500_000]),
    ];
    let got = kinematic_controller_collisions(
        Some(body),
        Some(wall(BodyKind::Static)),
        &manifolds,
        tick(),
    );
    assert_eq!(
        got,
        Some(Correction {
            first: true,
            position: Vec2::new(1_000_000, 2_500_000),
            velocity: Vec2::zero(),
        })
    );
}

#[test]
fn position_saturates_at_the_edge_of_the_world() {
    let (moved, _) = solve_contacts(Vec2::new(i64::MAX - 1, 0), &Dir2::x_axis(), &vec![5]);
    assert_eq!(moved, Vec2::new(i64::MAX, 0));
}

#[test]
fn body_kinds() {
    assert!(BodyKind::Dynamic.is_dynamic());
    assert!(!BodyKind::Static.is_dynamic());
    assert!(BodyKind::Static.is_static());
    assert!(!BodyKind::Kinematic.is_static());
    assert!(BodyKind::Kinematic.is_kinematic());
    assert!(!BodyKind::Dynamic.is_kinematic());
}
