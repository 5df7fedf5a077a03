//! Collision response of kinematic character controllers.
//!
//! A physics engine moves dynamic bodies out of each other, but leaves a
//! kinematic body where the game put it. For each pair of touching colliders
//! this module pushes a kinematic character controller out along the contact
//! normal by the depth of each penetrating contact, and then takes from its
//! velocity the part that leads into the surface.

use vstd::prelude::*;
use crate::fixed::{Dir2, Vec2, SCALE, div_toward_zero, saturate, saturating, divide,
    scale_direction, dot_direction};
use crate::time::Span;

verus! {

/// Nanoseconds in one second.
pub const NANOS_PER_SECOND: i128 = 1_000_000_000;

/// How a rigid body is moved.
#[derive(Clone, Copy, PartialEq, Eq, Structural, Debug)]
pub enum BodyKind {
    /// Moved by the physics solver.
    Dynamic,
    /// Never moved.
    Static,
    /// Moved by game logic alone.
    Kinematic,
}

impl BodyKind {
    pub fn is_dynamic(&self) -> (b: bool)
        ensures
            b == (*self == BodyKind::Dynamic),
    {
        match self {
            BodyKind::Dynamic => true,
            _ => false,
        }
    }

    pub fn is_static(&self) -> (b: bool)
        ensures
            b == (*self == BodyKind::Static),
    {
        match self {
            BodyKind::Static => true,
            _ => false,
        }
    }

    pub fn is_kinematic(&self) -> (b: bool)
        ensures
            b == (*self == BodyKind::Kinematic),
    {
        match self {
            BodyKind::Kinematic => true,
            _ => false,
        }
    }
}

/// Where a body is and how it moves.
#[derive(Clone, Copy, PartialEq, Eq, Structural, Debug)]
pub struct Motion {
    pub position: Vec2,
    pub velocity: Vec2,
}

/// What a collision reads of the rigid body behind one of its two colliders.
#[derive(Clone, Copy, PartialEq, Eq, Debug)]
pub struct Body {
    pub kind: BodyKind,
    /// The collider reports overlaps only and takes part in no physical response.
    pub sensor: bool,
    /// The motion of the body, if it is a character controller.
    pub controller: Option<Motion>,
}

/// Contact points between two colliders that share one contact normal.
#[derive(Clone, PartialEq, Eq, Debug)]
pub struct ContactManifold {
    /// The contact normal in world space, pointing out of the first collider.
    pub global_normal1: Dir2,
    /// The contact normal in world space, pointing out of the second collider.
    pub global_normal2: Dir2,
    /// The penetration depth at each contact point; zero or less where the
    /// colliders do not overlap yet.
    pub penetrations: Vec<i64>,
}

/// The corrected state of the character controller of one collision.
#[derive(Clone, Copy, PartialEq, Eq, Debug)]
pub struct Correction {
    /// The controller is the first body of the pair.
    pub first: bool,
    pub position: Vec2,
    pub velocity: Vec2,
}

/// The direction in which a manifold pushes the controller: the inverse of
/// the normal that points out of the controller's own collider.
pub open spec fn push_normal(manifold: ContactManifold, first: bool) -> (int, int) {
    if first {
        (-manifold.global_normal1@.0, -manifold.global_normal1@.1)
    } else {
        (-manifold.global_normal2@.0, -manifold.global_normal2@.1)
    }
}

/// `position` after it was moved along `normal` by the depth of each
/// penetrating contact, one contact after the other.
pub open spec fn depenetrate(position: Vec2, normal: (int, int), penetrations: Seq<i64>) -> Vec2
    decreases penetrations.len(),
{
    if penetrations.len() == 0 {
        position
    } else {
        let before = depenetrate(position, normal, penetrations.drop_last());
        let depth = penetrations.last();
        if depth > 0 {
            before.spec_plus(scale_direction(normal, depth as int))
        } else {
            before
        }
    }
}

/// The largest of the penetration depths (of a manifold with a contact point).
pub open spec fn deepest_penetration(penetrations: Seq<i64>) -> int
    decreases penetrations.len(),
{
    if penetrations.len() <= 1 {
        penetrations.last() as int
    } else {
        let rest = deepest_penetration(penetrations.drop_last());
        if penetrations.last() > rest {
            penetrations.last() as int
        } else {
            rest
        }
    }
}

/// The deepest penetration is one of the depths, and none is deeper.
pub proof fn lemma_deepest_penetration(penetrations: Seq<i64>)
    requires
        penetrations.len() > 0,
    ensures
        forall|i: int|
            0 <= i < penetrations.len() ==> #[trigger] penetrations[i] <= deepest_penetration(
                penetrations,
            ),
        exists|i: int|
            0 <= i < penetrations.len() && #[trigger] penetrations[i] == deepest_penetration(
                penetrations,
            ),
    decreases penetrations.len(),
{
    if penetrations.len() > 1 {
        let rest = penetrations.drop_last();
        lemma_deepest_penetration(rest);
        let i = choose|i: int| 0 <= i < rest.len() && #[trigger] rest[i] == deepest_penetration(rest);
        assert(rest[i] == penetrations[i]);
        assert forall|j: int| 0 <= j < penetrations.len() implies #[trigger] penetrations[j]
            <= deepest_penetration(penetrations) by {
            if j < rest.len() {
                assert(rest[j] == penetrations[j]);
            }
        }
        if penetrations.last() > deepest_penetration(rest) {
            assert(penetrations[penetrations.len() - 1] == deepest_penetration(penetrations));
        } else {
            assert(penetrations[i] == deepest_penetration(penetrations));
        }
    } else {
        assert(penetrations[0] == deepest_penetration(penetrations));
    }
}

/// `velocity` without its component along `normal`: what is left slides along the surface.
pub open spec fn slide(velocity: Vec2, normal: (int, int)) -> Vec2 {
    let along = dot_direction(velocity, normal);
    Vec2 {
        x: saturate(velocity.x - div_toward_zero(normal.0 * along, SCALE * SCALE)) as i64,
        y: saturate(velocity.y - div_toward_zero(normal.1 * along, SCALE * SCALE)) as i64,
    }
}

/// The speed along the normal that a predicted contact takes from the
/// velocity: the normal speed, less the speed at which the gap of
/// `-deepest` would close within `delta`.
pub open spec fn impulse_magnitude(velocity: Vec2, normal: (int, int), deepest: int, delta: Span) -> int {
    div_toward_zero(dot_direction(velocity, normal), SCALE as int) - div_toward_zero(
        deepest * NANOS_PER_SECOND,
        delta.nanos as int,
    )
}

/// `velocity` less the impulse of a predicted contact; the impulse's second
/// component is never negative.
pub open spec fn push_back(velocity: Vec2, normal: (int, int), deepest: int, delta: Span) -> Vec2 {
    let magnitude = impulse_magnitude(velocity, normal, deepest, delta);
    let impulse_x = div_toward_zero(magnitude * normal.0, SCALE as int);
    let impulse_y = div_toward_zero(magnitude * normal.1, SCALE as int);
    Vec2 {
        x: saturate(velocity.x - impulse_x) as i64,
        y: saturate(velocity.y - if impulse_y > 0 { impulse_y } else { 0 }) as i64,
    }
}

/// The velocity after one manifold's correction against geometry that does not give way.
pub open spec fn correct_velocity(velocity: Vec2, normal: (int, int), deepest: int, delta: Span) -> Vec2 {
    if dot_direction(velocity, normal) > 0 {
        velocity
    } else if deepest > 0 {
        slide(velocity, normal)
    } else {
        push_back(velocity, normal, deepest, delta)
    }
}

/// Position and velocity of the controller after one manifold.
pub open spec fn resolve_manifold(
    position: Vec2,
    velocity: Vec2,
    normal: (int, int),
    penetrations: Seq<i64>,
    other_is_dynamic: bool,
    delta: Span,
) -> (Vec2, Vec2) {
    (
        depenetrate(position, normal, penetrations),
        if other_is_dynamic || penetrations.len() == 0 {
            velocity
        } else {
            correct_velocity(velocity, normal, deepest_penetration(penetrations), delta)
        },
    )
}

/// Position and velocity of the controller after the manifolds of one
/// collision, each applied to what the one before it left.
pub open spec fn resolve_manifolds(
    position: Vec2,
    velocity: Vec2,
    manifolds: Seq<ContactManifold>,
    first: bool,
    other_is_dynamic: bool,
    delta: Span,
) -> (Vec2, Vec2)
    decreases manifolds.len(),
{
    if manifolds.len() == 0 {
        (position, velocity)
    } else {
        let before = resolve_manifolds(
            position,
            velocity,
            manifolds.drop_last(),
            first,
            other_is_dynamic,
            delta,
        );
        resolve_manifold(
            before.0,
            before.1,
            push_normal(manifolds.last(), first),
            manifolds.last().penetrations@,
            other_is_dynamic,
            delta,
        )
    }
}

/// What is left of a penetration of `depth` along `normal` once the body has
/// moved from `from` to `to`, in units of `1 / (SCALE * SCALE)`.
pub open spec fn remaining_penetration(depth: int, normal: (int, int), from: Vec2, to: Vec2) -> int {
    depth * SCALE - ((to.x - from.x) * normal.0 + (to.y - from.y) * normal.1)
}

/// `normal` has length one exactly.
pub open spec fn is_unit(normal: (int, int)) -> bool {
    normal.0 * normal.0 + normal.1 * normal.1 == SCALE * SCALE
}

/// Moving from `position` along `normal` by `depth` stays within the bounds of `i64`.
pub open spec fn moves_within_bounds(position: Vec2, normal: (int, int), depth: int) -> bool {
    &&& i64::MIN <= position.x + div_toward_zero(normal.0 * depth, SCALE as int) <= i64::MAX
    &&& i64::MIN <= position.y + div_toward_zero(normal.1 * depth, SCALE as int) <= i64::MAX
}

/// Moving along `normal` by `depth` loses nothing to rounding.
pub open spec fn moves_exactly(normal: (int, int), depth: int) -> bool {
    &&& (normal.0 * depth) % (SCALE as int) == 0
    &&& (normal.1 * depth) % (SCALE as int) == 0
}

/// The product of `component` and `depth`, split into the part that the
/// move makes and the part that rounding toward zero leaves behind.
proof fn lemma_rounded_share(component: int, depth: int) -> (parts: (int, int))
    requires
        depth > 0,
        -SCALE <= component <= SCALE,
    ensures
        parts.0 == div_toward_zero(component * depth, SCALE as int),
        component * depth == parts.0 * SCALE + parts.1,
        -depth <= parts.0 <= depth,
        0 <= parts.1 * component < SCALE * SCALE,
        (component * depth) % (SCALE as int) == 0 ==> parts.1 == 0,
{
    let s = SCALE as int;
    let a = component * depth;
    let q = div_toward_zero(a, s);
    let r = a - q * s;
    assert(-depth * s <= a <= depth * s && (component >= 0 ==> a >= 0) && (component <= 0 ==> a
        <= 0)) by (nonlinear_arith)
        requires
            a == component * depth,
            depth > 0,
            -s <= component <= s,
    ;
    if a >= 0 {
        assert(0 <= r < s);
    } else {
        assert(-s < r <= 0);
    }
    assert(0 <= r * component < s * s) by (nonlinear_arith)
        requires
            -s <= component <= s,
            (component >= 0 && 0 <= r < s) || (component <= 0 && -s < r <= 0),
            s == 1_000_000,
    ;
    (q, r)
}

/// The move of one penetrating contact along a unit normal, by its parts.
proof fn lemma_single_contact(position: Vec2, normal: (int, int), depth: i64) -> (parts: (
    int,
    int,
))
    requires
        depth > 0,
        is_unit(normal),
        moves_within_bounds(position, normal, depth as int),
    ensures
        remaining_penetration(
            depth as int,
            normal,
            position,
            depenetrate(position, normal, seq![depth]),
        ) * SCALE == parts.0 * normal.0 + parts.1 * normal.1,
        0 <= parts.0 * normal.0 < SCALE * SCALE,
        0 <= parts.1 * normal.1 < SCALE * SCALE,
        moves_exactly(normal, depth as int) ==> parts == (0int, 0int),
{
    let contacts = seq![depth];
    assert(contacts.drop_last() =~= Seq::<i64>::empty());
    assert(contacts.last() == depth);
    assert(depenetrate(position, normal, contacts.drop_last()) == position);
    let moved = depenetrate(position, normal, contacts);
    assert(moved == position.spec_plus(scale_direction(normal, depth as int)));
    let d = depth as int;
    let s = SCALE as int;
    let (n0, n1) = normal;
    assert(-s <= n0 <= s && -s <= n1 <= s) by (nonlinear_arith)
        requires
            n0 * n0 + n1 * n1 == s * s,
            s == 1_000_000,
    ;
    let (qx, rx) = lemma_rounded_share(n0, d);
    let (qy, ry) = lemma_rounded_share(n1, d);
    assert(d * n0 == n0 * d && d * n1 == n1 * d) by (nonlinear_arith);
    assert(moved.x - position.x == qx);
    assert(moved.y - position.y == qy);
    assert(qx * n0 * s == d * (n0 * n0) - rx * n0) by (nonlinear_arith)
        requires
            n0 * d == qx * s + rx,
    ;
    assert(qy * n1 * s == d * (n1 * n1) - ry * n1) by (nonlinear_arith)
        requires
            n1 * d == qy * s + ry,
    ;
    assert(d * (n0 * n0) + d * (n1 * n1) == d * s * s) by (nonlinear_arith)
        requires
            n0 * n0 + n1 * n1 == s * s,
    ;
    assert((d * s - (qx * n0 + qy * n1)) * s == rx * n0 + ry * n1) by (nonlinear_arith)
        requires
            qx * n0 * s + qy * n1 * s == d * s * s - rx * n0 - ry * n1,
    ;
    (rx, ry)
}

/// A body that penetrates a surface by `depth` along a unit normal is moved
/// so that no penetration along that normal is left, wherever the move can be
/// made without rounding.
pub proof fn law_depenetration_leaves_no_penetration(
    position: Vec2,
    velocity: Vec2,
    normal: (int, int),
    depth: i64,
    other_is_dynamic: bool,
    delta: Span,
)
    requires
        depth > 0,
        is_unit(normal),
        moves_exactly(normal, depth as int),
        moves_within_bounds(position, normal, depth as int),
    ensures
        remaining_penetration(
            depth as int,
            normal,
            position,
            resolve_manifold(position, velocity, normal, seq![depth], other_is_dynamic, delta).0,
        ) == 0,
{
    let parts = lemma_single_contact(position, normal, depth);
    let left = remaining_penetration(
        depth as int,
        normal,
        position,
        depenetrate(position, normal, seq![depth]),
    );
    assert(left == 0) by (nonlinear_arith)
        requires
            left * SCALE == 0,
            SCALE == 1_000_000,
    ;
}

/// Whatever the rounding, the move along a unit normal never goes too far,
/// and what it leaves of the penetration is less than two fixed-point units
/// of length.
pub proof fn law_depenetration_is_within_rounding(
    position: Vec2,
    velocity: Vec2,
    normal: (int, int),
    depth: i64,
    other_is_dynamic: bool,
    delta: Span,
)
    requires
        depth > 0,
        is_unit(normal),
        moves_within_bounds(position, normal, depth as int),
    ensures
        0 <= remaining_penetration(
            depth as int,
            normal,
            position,
            resolve_manifold(position, velocity, normal, seq![depth], other_is_dynamic, delta).0,
        ) < 2 * SCALE,
{
    let parts = lemma_single_contact(position, normal, depth);
    let left = remaining_penetration(
        depth as int,
        normal,
        position,
        depenetrate(position, normal, seq![depth]),
    );
    let sum = parts.0 * normal.0 + parts.1 * normal.1;
    assert(0 <= left < 2_000_000) by (nonlinear_arith)
        requires
            left * SCALE == sum,
            0 <= sum < 2 * (SCALE * SCALE),
            SCALE == 1_000_000,
    ;
}

/// A manifold whose normal the velocity already leads away from changes
/// nothing of the velocity.
pub proof fn law_moving_away_is_not_corrected(
    position: Vec2,
    velocity: Vec2,
    normal: (int, int),
    penetrations: Seq<i64>,
    other_is_dynamic: bool,
    delta: Span,
)
    requires
        dot_direction(velocity, normal) > 0,
    ensures
        resolve_manifold(position, velocity, normal, penetrations, other_is_dynamic, delta).1
            == velocity,
{
}

/// Which body of a pair a collision corrects: the first if it is a character
/// controller, else the second if it is one. A pair with a missing body or
/// with a sensor collider is left alone.
pub open spec fn controller_side(first: Option<Body>, second: Option<Body>) -> Option<bool> {
    match (first, second) {
        (Some(a), Some(b)) => {
            if a.sensor || b.sensor {
                None
            } else if a.controller.is_some() {
                Some(true)
            } else if b.controller.is_some() {
                Some(false)
            } else {
                None
            }
        },
        _ => None,
    }
}

/// What `kinematic_controller_collisions` returns.
pub open spec fn collision_response(
    first: Option<Body>,
    second: Option<Body>,
    manifolds: Seq<ContactManifold>,
    delta: Span,
) -> Option<Correction> {
    match controller_side(first, second) {
        None => None,
        Some(is_first) => {
            let character = if is_first { first.unwrap() } else { second.unwrap() };
            let other = if is_first { second.unwrap() } else { first.unwrap() };
            if character.kind != BodyKind::Kinematic {
                None
            } else {
                let state = resolve_manifolds(
                    character.controller.unwrap().position,
                    character.controller.unwrap().velocity,
                    manifolds,
                    is_first,
                    other.kind == BodyKind::Dynamic,
                    delta,
                );
                Some(Correction { first: is_first, position: state.0, velocity: state.1 })
            }
        },
    }
}

/// Moves `position` out along `normal` by the depth of each penetrating
/// contact, and returns it with the deepest penetration of the manifold
/// (`None` for a manifold without contact points).
pub fn solve_contacts(position: Vec2, normal: &Dir2, penetrations: &Vec<i64>) -> (r: (
    Vec2,
    Option<i64>,
))
    ensures
        r.0 == depenetrate(position, normal@, penetrations@),
        penetrations@.len() == 0 <==> r.1.is_none(),
        r.1.is_some() ==> r.1.unwrap() as int == deepest_penetration(penetrations@),
        r.1.is_some() ==> forall|i: int|
            0 <= i < penetrations@.len() ==> #[trigger] penetrations@[i] <= r.1.unwrap(),
{
    let mut moved: Vec2 = position;
    let mut deepest: Option<i64> = None;
    let mut i: usize = 0;
    while i < penetrations.len()
        invariant
            i <= penetrations.len(),
            moved == depenetrate(position, normal@, penetrations@.take(i as int)),
            i == 0 <==> deepest.is_none(),
            deepest.is_some() ==> deepest.unwrap() as int == deepest_penetration(
                penetrations@.take(i as int),
            ),
        decreases penetrations.len() - i,
    {
        let depth: i64 = penetrations[i];
        proof {
            let upto = penetrations@.take(i as int + 1);
            assert(upto.drop_last() == penetrations@.take(i as int));
            assert(upto.last() == depth);
        }
        if depth > 0 {
            moved = moved.plus(&normal.scaled(depth));
        }
        deepest = match deepest {
            None => Some(depth),
            Some(d) => if depth > d { Some(depth) } else { Some(d) },
        };
        i = i + 1;
    }
    proof {
        assert(penetrations@.take(i as int) == penetrations@);
        if penetrations@.len() > 0 {
            lemma_deepest_penetration(penetrations@);
        }
    }
    (moved, deepest)
}

/// Takes from `velocity` its component along `normal`.
pub fn slide_along(velocity: Vec2, normal: &Dir2) -> (v: Vec2)
    ensures
        v == slide(velocity, normal@),
{
    let along: i128 = velocity.dot(normal);
    let nx: i128 = normal.x() as i128;
    let ny: i128 = normal.y() as i128;
    assert(-0x8000_0000_0000_0000 * 2_000_000 * 1_000_000 <= nx * along <= 0x8000_0000_0000_0000
        * 2_000_000 * 1_000_000) by (nonlinear_arith)
        requires
            -1_000_000 <= nx <= 1_000_000,
            -0x8000_0000_0000_0000 * 2_000_000 <= along <= 0x8000_0000_0000_0000 * 2_000_000,
    ;
    assert(-0x8000_0000_0000_0000 * 2_000_000 * 1_000_000 <= ny * along <= 0x8000_0000_0000_0000
        * 2_000_000 * 1_000_000) by (nonlinear_arith)
        requires
            -1_000_000 <= ny <= 1_000_000,
            -0x8000_0000_0000_0000 * 2_000_000 <= along <= 0x8000_0000_0000_0000 * 2_000_000,
    ;
    let cx: i128 = divide(nx * along, 1_000_000_000_000);
    let cy: i128 = divide(ny * along, 1_000_000_000_000);
    assert(SCALE * SCALE == 1_000_000_000_000);
    Vec2 { x: saturating(velocity.x as i128 - cx), y: saturating(velocity.y as i128 - cy) }
}

/// Takes from `velocity` the impulse of a predicted contact.
pub fn push_back_from(velocity: Vec2, normal: &Dir2, deepest: i64, delta: Span) -> (v: Vec2)
    requires
        delta.nanos > 0,
    ensures
        v == push_back(velocity, normal@, deepest as int, delta),
{
    let along: i128 = velocity.dot(normal);
    let nx: i128 = normal.x() as i128;
    let ny: i128 = normal.y() as i128;
    let normal_speed: i128 = divide(along, 1_000_000);
    let closing: i128 = divide(deepest as i128 * NANOS_PER_SECOND, delta.nanos as i128);
    let magnitude: i128 = normal_speed - closing;
    assert(-0x8000_0000_0000_0000 * 1_002_000_000 * 1_000_000 <= magnitude * nx
        <= 0x8000_0000_0000_0000 * 1_002_000_000 * 1_000_000) by (nonlinear_arith)
        requires
            -1_000_000 <= nx <= 1_000_000,
            -0x8000_0000_0000_0000 * 1_002_000_000 <= magnitude <= 0x8000_0000_0000_0000
                * 1_002_000_000,
    ;
    assert(-0x8000_0000_0000_0000 * 1_002_000_000 * 1_000_000 <= magnitude * ny
        <= 0x8000_0000_0000_0000 * 1_002_000_000 * 1_000_000) by (nonlinear_arith)
        requires
            -1_000_000 <= ny <= 1_000_000,
            -0x8000_0000_0000_0000 * 1_002_000_000 <= magnitude <= 0x8000_0000_0000_0000
                * 1_002_000_000,
    ;
    let impulse_x: i128 = divide(magnitude * nx, 1_000_000);
    let raw_y: i128 = divide(magnitude * ny, 1_000_000);
    let impulse_y: i128 = if raw_y > 0 { raw_y } else { 0 };
    Vec2 {
        x: saturating(velocity.x as i128 - impulse_x),
        y: saturating(velocity.y as i128 - impulse_y),
    }
}

/// Corrects `velocity` for one manifold against geometry that does not give
/// way. A velocity that leads away from the surface is left as it is.
pub fn velocity_correction(velocity: Vec2, normal: &Dir2, deepest: i64, delta: Span) -> (v: Vec2)
    requires
        delta.nanos > 0,
    ensures
        v == correct_velocity(velocity, normal@, deepest as int, delta),
        velocity.spec_dot(*normal) > 0 ==> v == velocity,
{
    if velocity.dot(normal) > 0 {
        velocity
    } else if deepest > 0 {
        slide_along(velocity, normal)
    } else {
        push_back_from(velocity, normal, deepest, delta)
    }
}

/// Resolves the manifolds of one collision between two colliders.
///
/// `first` and `second` are the rigid bodies behind the two colliders, `None`
/// where a collider belongs to no body. Returns the corrected position and
/// velocity of the character controller among them, or `None` where the
/// collision is not one of a kinematic character controller with a collider
/// that takes part in physical response.
pub fn kinematic_controller_collisions(
    first: Option<Body>,
    second: Option<Body>,
    manifolds: &Vec<ContactManifold>,
    delta: Span,
) -> (correction: Option<Correction>)
    requires
        delta.nanos > 0,
    ensures
        correction == collision_response(first, second, manifolds@, delta),
{
    let (a, b) = match (first, second) {
        (Some(a), Some(b)) => (a, b),
        _ => { return None; },
    };
    if a.sensor || b.sensor {
        return None;
    }
    let (is_first, motion): (bool, Motion) = match (a.controller, b.controller) {
        (Some(motion), _) => (true, motion),
        (None, Some(motion)) => (false, motion),
        (None, None) => { return None; },
    };
    let character: Body = if is_first { a } else { b };
    let other: Body = if is_first { b } else { a };
    if !character.kind.is_kinematic() {
        return None;
    }
    let is_other_dynamic: bool = other.kind.is_dynamic();
    let mut position: Vec2 = motion.position;
    let mut velocity: Vec2 = motion.velocity;
    let mut i: usize = 0;
    while i < manifolds.len()
        invariant
            i <= manifolds.len(),
            delta.nanos > 0,
            (position, velocity) == resolve_manifolds(
                motion.position,
                motion.velocity,
                manifolds@.take(i as int),
                is_first,
                is_other_dynamic,
                delta,
            ),
        decreases manifolds.len() - i,
    {
        let manifold = &manifolds[i];
        let normal: Dir2 = if is_first {
            manifold.global_normal1.neg()
        } else {
            manifold.global_normal2.neg()
        };
        proof {
            let upto = manifolds@.take(i as int + 1);
            assert(upto.drop_last() == manifolds@.take(i as int));
            assert(upto.last() == *manifold);
            assert(normal@ == push_normal(*manifold, is_first));
        }
        let (moved, deepest) = solve_contacts(position, &normal, &manifold.penetrations);
        position = moved;
        if !is_other_dynamic {
            match deepest {
                Some(depth) => {
                    velocity = velocity_correction(velocity, &normal, depth, delta);
                },
                None => {},
            }
        }
        i = i + 1;
    }
    proof {
        assert(manifolds@.take(i as int) == manifolds@);
    }
    Some(Correction { first: is_first, position, velocity })
}

} // verus!
