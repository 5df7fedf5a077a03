//! Damage by touch: an enemy that touches the player's hitbox hurts the player.

use std::collections::HashSet;
use vstd::prelude::*;
use crate::EntityId;
use crate::health::DamageEvent;

verus! {

broadcast use vstd::std_specs::hash::group_hash_axioms;

/// The damage of one tick of contact.
pub const CONTACT_DAMAGE: u32 = 1;

/// Looks at what one enemy touches (`colliding`): if the player's hitbox is
/// among it, the player takes one event of contact damage from that enemy.
pub fn handle_damaging_contacts(
    enemy: EntityId,
    colliding: &HashSet<EntityId>,
    player: EntityId,
    player_hitbox: EntityId,
) -> (event: Option<DamageEvent>)
    ensures
        event == if colliding@.contains(player_hitbox) {
            Some(DamageEvent { damage: CONTACT_DAMAGE, target: player, source: enemy })
        } else {
            None
        },
{
    if colliding.contains(&player_hitbox) {
        Some(DamageEvent { damage: CONTACT_DAMAGE, target: player, source: enemy })
    } else {
        None
    }
}

} // verus!
