//! Damage zones: short-lived hitboxes that hit each target once.

use std::collections::HashSet;
use vstd::prelude::*;
use crate::EntityId;
use crate::fixed::{saturate, saturating};
use crate::health::DamageEvent;
use crate::layers::{CollisionLayers, LayerMask};
use crate::time::Span;

verus! {

broadcast use vstd::std_specs::hash::group_hash_axioms;

/// A zone that damages what overlaps it, for as long as its lifetime lasts.
#[derive(Clone, Copy, PartialEq, Eq, Structural, Debug)]
pub struct DamageZone {
    /// The entity that made the zone. The zone does not own it.
    pub emitter: EntityId,
    pub damage: u32,
    /// The time that is left to the zone.
    pub lifetime: Span,
}

/// The entities that a damage zone has damaged already.
#[derive(PartialEq, Eq, Debug)]
pub struct DamagedEntities(pub HashSet<EntityId>);

/// A rectangle centred on its entity, as the physics engine is to build it.
#[derive(Clone, Copy, PartialEq, Eq, Structural, Debug)]
pub struct Collider {
    pub x_length: i64,
    pub y_length: i64,
}

impl Collider {
    pub fn rectangle(x_length: i64, y_length: i64) -> (collider: Collider)
        ensures
            collider.x_length == x_length,
            collider.y_length == y_length,
    {
        Collider { x_length, y_length }
    }
}

/// Marks a collider that reports overlaps and takes part in no physical response.
#[derive(Clone, Copy, PartialEq, Eq, Structural, Debug)]
pub struct Sensor;

/// All that a damage zone is spawned with.
#[derive(PartialEq, Eq, Debug)]
pub struct DamageZoneBundle {
    pub damage_zone: DamageZone,
    pub collider: Collider,
    pub layers: CollisionLayers,
    pub sensor: Sensor,
    pub damaged_entities: DamagedEntities,
}

impl DamageZoneBundle {
    /// `self` is the bundle of a fresh zone made with these values: twice as
    /// long as `circle_radius` and as wide as it, and with nothing damaged yet.
    pub open spec fn is_fresh(
        self,
        emitter: EntityId,
        damage: u32,
        lifetime: Span,
        circle_radius: i64,
        own_layer: LayerMask,
        collides_with_layers: LayerMask,
    ) -> bool {
        &&& self.damage_zone == (DamageZone { emitter, damage, lifetime })
        &&& self.collider.x_length as int == saturate(circle_radius * 2)
        &&& self.collider.y_length == circle_radius
        &&& self.layers == (CollisionLayers { memberships: own_layer, filters: collides_with_layers })
        &&& self.damaged_entities.0@ == Set::<EntityId>::empty()
    }

    pub fn new(
        emitter: EntityId,
        damage: u32,
        lifetime: Span,
        circle_radius: i64,
        own_layer: LayerMask,
        collides_with_layers: LayerMask,
    ) -> (bundle: DamageZoneBundle)
        ensures
            bundle.is_fresh(emitter, damage, lifetime, circle_radius, own_layer, collides_with_layers),
    {
        DamageZoneBundle {
            damage_zone: DamageZone { emitter, damage, lifetime },
            collider: Collider::rectangle(saturating(circle_radius as i128 * 2), circle_radius),
            layers: CollisionLayers::new(own_layer, collides_with_layers),
            sensor: Sensor,
            damaged_entities: DamagedEntities(HashSet::new()),
        }
    }
}

/// The targets that a zone hits on one tick, in the order in which they are
/// met: the entities of `colliding` that carry health, that the zone has not
/// hit before, and that did not come earlier in `colliding`.
pub open spec fn fresh_targets(
    hit: Set<EntityId>,
    colliding: Seq<EntityId>,
    damageable: Set<EntityId>,
) -> Seq<EntityId>
    decreases colliding.len(),
{
    if colliding.len() == 0 {
        Seq::empty()
    } else {
        let earlier = fresh_targets(hit, colliding.drop_last(), damageable);
        let target = colliding.last();
        if damageable.contains(target) && !hit.contains(target) && !earlier.contains(target) {
            earlier.push(target)
        } else {
            earlier
        }
    }
}

/// `hit`, and the entities of `targets` with it.
pub open spec fn hit_with(hit: Set<EntityId>, targets: Seq<EntityId>) -> Set<EntityId> {
    Set::new(|entity: EntityId| hit.contains(entity) || targets.contains(entity))
}

/// One event of the zone's damage for each of `targets`, in their order.
pub open spec fn zone_events(zone: DamageZone, targets: Seq<EntityId>) -> Seq<DamageEvent> {
    Seq::new(
        targets.len(),
        |i: int| DamageEvent { damage: zone.damage, target: targets[i], source: zone.emitter },
    )
}

/// The targets that a zone with `lifetime` left hits on a tick of `delta`:
/// none if the tick ends the zone.
pub open spec fn targets_of_tick(
    lifetime: Span,
    hit: Set<EntityId>,
    delta: Span,
    colliding: Seq<EntityId>,
    damageable: Set<EntityId>,
) -> Seq<EntityId> {
    if lifetime.nanos <= delta.nanos {
        Seq::empty()
    } else {
        fresh_targets(hit, colliding, damageable)
    }
}

/// The targets of a tick are entities that overlap the zone and carry
/// health, none of them was hit before, and none comes twice.
pub proof fn lemma_fresh_targets(
    hit: Set<EntityId>,
    colliding: Seq<EntityId>,
    damageable: Set<EntityId>,
)
    ensures
        fresh_targets(hit, colliding, damageable).no_duplicates(),
        forall|entity: EntityId| #[trigger]
            fresh_targets(hit, colliding, damageable).contains(entity) <==> colliding.contains(
                entity,
            ) && damageable.contains(entity) && !hit.contains(entity),
    decreases colliding.len(),
{
    let fresh = fresh_targets(hit, colliding, damageable);
    if colliding.len() > 0 {
        let earlier = fresh_targets(hit, colliding.drop_last(), damageable);
        let target = colliding.last();
        lemma_fresh_targets(hit, colliding.drop_last(), damageable);
        assert forall|entity: EntityId| #[trigger]
            fresh.contains(entity) <==> colliding.contains(entity) && damageable.contains(entity)
                && !hit.contains(entity) by {
            vstd::seq_lib::lemma_seq_contains_after_push(earlier, target, entity);
            assert(colliding =~= colliding.drop_last().push(target));
            vstd::seq_lib::lemma_seq_contains_after_push(colliding.drop_last(), target, entity);
        }
    }
}

/// Ticks one damage zone.
///
/// The zone's lifetime goes down by `delta`. If nothing is left of it the
/// zone is over: the result is `true`, the caller destroys the zone with all
/// that is attached to it, and nothing else happens. Otherwise every entity of
/// `colliding` (the entities that overlap the zone's collider) that is in
/// `damageable` (the entities that carry health) and that the zone has not
/// damaged before is put down as damaged, and one event of the zone's damage
/// for it, from the zone's emitter, is added to `events`.
pub fn handle_damage_zones(
    damage_zone: &mut DamageZone,
    damaged_entities: &mut DamagedEntities,
    colliding: &Vec<EntityId>,
    damageable: &HashSet<EntityId>,
    delta: Span,
    events: &mut Vec<DamageEvent>,
) -> (over: bool)
    ensures
        final(damage_zone).emitter == old(damage_zone).emitter,
        final(damage_zone).damage == old(damage_zone).damage,
        final(damage_zone).lifetime == old(damage_zone).lifetime.spec_saturating_sub(delta),
        over == (old(damage_zone).lifetime.nanos <= delta.nanos),
        ({
            let targets = targets_of_tick(
                old(damage_zone).lifetime,
                old(damaged_entities).0@,
                delta,
                colliding@,
                damageable@,
            );
            &&& final(damaged_entities).0@ == hit_with(old(damaged_entities).0@, targets)
            &&& final(events)@ == old(events)@ + zone_events(*old(damage_zone), targets)
        }),
{
    let ghost hit = damaged_entities.0@;
    damage_zone.lifetime = damage_zone.lifetime.saturating_sub(delta);
    if damage_zone.lifetime.is_zero() {
        proof {
            assert(damaged_entities.0@ =~= hit_with(hit, Seq::empty()));
            assert(events@ =~= old(events)@ + zone_events(*old(damage_zone), Seq::empty()));
        }
        return true;
    }
    let mut i: usize = 0;
    while i < colliding.len()
        invariant
            i <= colliding.len(),
            damage_zone.emitter == old(damage_zone).emitter,
            damage_zone.damage == old(damage_zone).damage,
            damaged_entities.0@ == hit_with(
                hit,
                fresh_targets(hit, colliding@.take(i as int), damageable@),
            ),
            events@ == old(events)@ + zone_events(
                *old(damage_zone),
                fresh_targets(hit, colliding@.take(i as int), damageable@),
            ),
        decreases colliding.len() - i,
    {
        let colliding_entity: EntityId = colliding[i];
        let ghost earlier = fresh_targets(hit, colliding@.take(i as int), damageable@);
        proof {
            let upto = colliding@.take(i as int + 1);
            assert(upto.drop_last() == colliding@.take(i as int));
            assert(upto.last() == colliding_entity);
        }
        if !damaged_entities.0.contains(&colliding_entity) && damageable.contains(
            &colliding_entity,
        ) {
            damaged_entities.0.insert(colliding_entity);
            events.push(
                DamageEvent {
                    damage: damage_zone.damage,
                    target: colliding_entity,
                    source: damage_zone.emitter,
                },
            );
            proof {
                let now = earlier.push(colliding_entity);
                assert forall|entity: EntityId|
                    hit_with(hit, earlier).insert(colliding_entity).contains(entity) == hit_with(
                        hit,
                        now,
                    ).contains(entity) by {
                    vstd::seq_lib::lemma_seq_contains_after_push(earlier, colliding_entity, entity);
                }
                assert(damaged_entities.0@ =~= hit_with(hit, now));
                assert(events@ =~= old(events)@ + zone_events(*old(damage_zone), now));
            }
        }
        i = i + 1;
    }
    proof {
        assert(colliding@.take(i as int) == colliding@);
    }
    false
}

/// The targets that a zone hits over a run of ticks, in the order of the
/// events. A tick is the time that passes, the entities that overlap the
/// zone during it, and the entities that carry health during it.
pub open spec fn targets_over(
    lifetime: Span,
    hit: Set<EntityId>,
    ticks: Seq<(Span, Seq<EntityId>, Set<EntityId>)>,
) -> Seq<EntityId>
    decreases ticks.len(),
{
    if ticks.len() == 0 {
        Seq::empty()
    } else {
        let (delta, colliding, damageable) = ticks.first();
        let now = targets_of_tick(lifetime, hit, delta, colliding, damageable);
        now + targets_over(
            lifetime.spec_saturating_sub(delta),
            hit_with(hit, now),
            ticks.drop_first(),
        )
    }
}

/// Over its whole life a zone hits no target twice, however long the target
/// stays within it, and no target that it had hit before.
pub proof fn law_zone_hits_each_target_once(
    lifetime: Span,
    hit: Set<EntityId>,
    ticks: Seq<(Span, Seq<EntityId>, Set<EntityId>)>,
)
    ensures
        targets_over(lifetime, hit, ticks).no_duplicates(),
        forall|entity: EntityId| #[trigger]
            targets_over(lifetime, hit, ticks).contains(entity) ==> !hit.contains(entity),
    decreases ticks.len(),
{
    if ticks.len() > 0 {
        let (delta, colliding, damageable) = ticks.first();
        let now = targets_of_tick(lifetime, hit, delta, colliding, damageable);
        let later = targets_over(
            lifetime.spec_saturating_sub(delta),
            hit_with(hit, now),
            ticks.drop_first(),
        );
        lemma_fresh_targets(hit, colliding, damageable);
        law_zone_hits_each_target_once(
            lifetime.spec_saturating_sub(delta),
            hit_with(hit, now),
            ticks.drop_first(),
        );
        assert forall|i: int, j: int| 0 <= i < now.len() && 0 <= j < later.len() implies now[i]
            != later[j] by {
            assert(later.contains(later[j]));
            assert(now.contains(now[i]));
        }
        vstd::seq_lib::lemma_no_dup_in_concat(now, later);
        assert forall|entity: EntityId| #[trigger] (now + later).contains(entity) implies !hit.contains(
            entity,
        ) by {
            vstd::seq_lib::lemma_seq_concat_contains_all_elements(now, later, entity);
        }
    }
}

/// A zone lasts exactly as long as its lifetime: a tick ends it if and only
/// if the time that has passed since it was made, this tick included, is no
/// less than the lifetime it was made with.
pub proof fn law_zone_ends_with_its_lifetime(lifetime: Span, elapsed: Span, delta: Span)
    requires
        elapsed.nanos + delta.nanos <= u64::MAX,
    ensures
        lifetime.spec_saturating_sub(elapsed).nanos <= delta.nanos <==> lifetime.nanos
            <= elapsed.nanos + delta.nanos,
{
}

} // verus!
