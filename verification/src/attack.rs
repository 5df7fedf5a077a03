//! The melee attack: a damage zone in front of the attacker.

use vstd::prelude::*;
use crate::EntityId;
use crate::damage_zone::DamageZoneBundle;
use crate::dash::NEGLIGIBLE_LENGTH_SQUARED;
use crate::fixed::{Dir2, Vec2};
use crate::layers::{GameLayer, LayerMask};
use crate::time::Span;

verus! {

/// The damage of the attack's zone.
pub const ATTACK_DAMAGE: u32 = 10;

/// How long the attack's zone lasts, in milliseconds.
pub const ATTACK_MILLIS: u64 = 180;

/// The radius that the attack's zone is sized by.
pub const ATTACK_RADIUS: i64 = 32_000_000;

/// What the player asks of the attack: where to aim, and whether an attack
/// was asked for on this tick.
#[derive(Clone, Copy, PartialEq, Eq, Structural, Debug)]
pub struct AttackController {
    /// The direction of the last look intent that was not negligible.
    pub look_direction: Dir2,
    pub intent: bool,
}

impl Default for AttackController {
    fn default() -> (controller: AttackController)
        ensures
            controller.look_direction@ == (0int, 0int),
            !controller.intent,
    {
        AttackController { look_direction: Dir2::zero(), intent: false }
    }
}

/// The direction that an attacker faces after a reading of the look axes:
/// the reading's direction where its squared length is more than negligible,
/// and what it was before otherwise.
pub open spec fn faced_direction(before: Dir2, look: Option<Vec2>) -> (int, int) {
    match look {
        Some(reading) if reading.spec_length_squared() > NEGLIGIBLE_LENGTH_SQUARED =>
            reading.spec_normalize_or_zero(),
        _ => before@,
    }
}

/// Records the reading of the look axes (`None` while they are at rest) and
/// whether either attack button went down on this tick.
pub fn record_attack_controller(
    controller: &mut AttackController,
    look: Option<Vec2>,
    primary: bool,
    secondary: bool,
)
    ensures
        final(controller).intent == (primary || secondary),
        final(controller).look_direction@ == faced_direction(old(controller).look_direction, look),
{
    match look {
        Some(reading) => {
            if reading.length_squared() > 50_000_000_000 {
                controller.look_direction = reading.normalize_or_zero();
            }
        },
        None => {},
    }
    controller.intent = primary || secondary;
}

/// Marks an entity that can attack.
#[derive(Clone, Copy, PartialEq, Eq, Structural, Debug, Default)]
pub struct Attack;

/// A damage zone to spawn, and where.
#[derive(PartialEq, Eq, Debug)]
pub struct AttackSpawn {
    pub bundle: DamageZoneBundle,
    /// The place of the zone: that of the attacker when it attacked.
    pub translation: Vec2,
    /// The direction that the zone faces, and keeps for as long as it lasts.
    pub facing: Dir2,
}

/// Decides what an attacker at `translation` spawns on this tick: nothing
/// unless an attack was asked for, else one damage zone of the player's
/// hitbox layer against the enemies' layer, emitted by `entity`, at the
/// attacker's place and facing where the attacker looks.
pub fn apply_attack(entity: EntityId, translation: Vec2, controller: &AttackController) -> (spawn:
    Option<AttackSpawn>)
    ensures
        spawn.is_some() == controller.intent,
        spawn.is_some() ==> {
            &&& spawn.unwrap().bundle.is_fresh(
                entity,
                ATTACK_DAMAGE,
                Span { nanos: 180_000_000 },
                ATTACK_RADIUS,
                LayerMask(GameLayer::PlayerHitbox.spec_to_bits()),
                LayerMask(GameLayer::Enemies.spec_to_bits()),
            )
            &&& spawn.unwrap().translation == translation
            &&& spawn.unwrap().facing == controller.look_direction
        },
{
    if controller.intent {
        Some(
            AttackSpawn {
                bundle: DamageZoneBundle::new(
                    entity,
                    ATTACK_DAMAGE,
                    Span::from_millis(ATTACK_MILLIS),
                    ATTACK_RADIUS,
                    LayerMask::from_layer(GameLayer::PlayerHitbox),
                    LayerMask::from_layer(GameLayer::Enemies),
                ),
                translation,
                facing: controller.look_direction,
            },
        )
    } else {
        None
    }
}

} // verus!
