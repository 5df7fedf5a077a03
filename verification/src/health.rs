//! Hit points, damage events and death.

use vstd::prelude::*;
use crate::EntityId;
use crate::fixed::{SCALE, div_toward_zero, saturate, saturating, divide};

verus! {

/// The hit points of an entity. `max` is more than zero: whoever creates the
/// entity sees to that.
#[derive(Clone, Copy, PartialEq, Eq, Structural, Debug)]
pub struct Health {
    /// What is left. It may be negative until the dead are swept.
    pub hit_points: i64,
    pub max: i64,
}

/// An amount of damage on its way to a target. It lives within one tick.
#[derive(Clone, Copy, PartialEq, Eq, Structural, Debug)]
pub struct DamageEvent {
    pub damage: u32,
    pub target: EntityId,
    pub source: EntityId,
}

impl Health {
    /// Full health of `max` hit points.
    pub fn new(max: i64) -> (health: Health)
        ensures
            health.hit_points == max,
            health.max == max,
    {
        Health { hit_points: max, max }
    }

    /// `hit_points / max` as a fixed-point fraction, rounded toward zero.
    pub open spec fn spec_percentage(self) -> int {
        saturate(div_toward_zero(self.hit_points * SCALE, self.max as int))
    }

    /// `hit_points / max` as a fixed-point fraction, rounded toward zero.
    pub fn percentage(&self) -> (fraction: i64)
        requires
            self.max > 0,
        ensures
            fraction as int == self.spec_percentage(),
    {
        saturating(divide(self.hit_points as i128 * 1_000_000, self.max as i128))
    }

    /// This health less `damage`; the hit points stop at the least `i64`.
    pub open spec fn after_damage(self, damage: int) -> Health {
        Health { hit_points: saturate(self.hit_points - damage) as i64, max: self.max }
    }

    /// Takes `damage` from the hit points, which may become negative.
    pub fn take_damage(&mut self, damage: u32)
        ensures
            *final(self) == old(self).after_damage(damage as int),
    {
        self.hit_points = saturating(self.hit_points as i128 - damage as i128);
    }

    /// No hit points are left.
    pub open spec fn spec_is_dead(self) -> bool {
        self.hit_points <= 0
    }

    /// No hit points are left.
    pub fn is_dead(&self) -> (dead: bool)
        ensures
            dead == self.spec_is_dead(),
    {
        self.hit_points <= 0
    }
}

/// The sum of the damage of the events in `events` that target `target`.
pub open spec fn total_damage(events: Seq<DamageEvent>, target: EntityId) -> int
    decreases events.len(),
{
    if events.len() == 0 {
        0
    } else {
        total_damage(events.drop_last(), target) + if events.last().target == target {
            events.last().damage as int
        } else {
            0
        }
    }
}

/// No damage is negative.
pub proof fn lemma_total_damage_is_not_negative(events: Seq<DamageEvent>, target: EntityId)
    ensures
        total_damage(events, target) >= 0,
    decreases events.len(),
{
    if events.len() > 0 {
        lemma_total_damage_is_not_negative(events.drop_last(), target);
    }
}

/// The damage of two runs of events is the sum of the damage of each.
pub proof fn lemma_total_damage_adds(
    earlier: Seq<DamageEvent>,
    later: Seq<DamageEvent>,
    target: EntityId,
)
    ensures
        total_damage(earlier + later, target) == total_damage(earlier, target) + total_damage(
            later,
            target,
        ),
    decreases later.len(),
{
    if later.len() == 0 {
        assert(earlier + later == earlier);
    } else {
        assert((earlier + later).drop_last() == earlier + later.drop_last());
        assert((earlier + later).last() == later.last());
        lemma_total_damage_adds(earlier, later.drop_last(), target);
    }
}

/// Damage taken in two steps is the damage of their sum taken at once.
pub proof fn lemma_damage_accumulates(health: Health, first: int, second: int)
    requires
        first >= 0,
        second >= 0,
    ensures
        health.after_damage(first).after_damage(second) == health.after_damage(first + second),
{
}

/// The hit points that an entity loses to the events of any number of ticks
/// are the sum of the damage of the events that target it, as long as the
/// hit points stay above the least `i64`.
pub proof fn law_damage_applied_is_damage_queued(
    health: Health,
    earlier: Seq<DamageEvent>,
    later: Seq<DamageEvent>,
    target: EntityId,
)
    requires
        health.hit_points - total_damage(earlier + later, target) >= i64::MIN,
    ensures
        health.hit_points - health.after_damage(total_damage(earlier, target)).after_damage(
            total_damage(later, target),
        ).hit_points == total_damage(earlier + later, target),
{
    lemma_total_damage_adds(earlier, later, target);
    lemma_total_damage_is_not_negative(earlier, target);
    lemma_total_damage_is_not_negative(later, target);
    lemma_damage_accumulates(
        health,
        total_damage(earlier, target),
        total_damage(later, target),
    );
}

/// The entries of `healths` after the events: each has lost the damage of
/// every event that targets its entity.
pub open spec fn damaged(healths: Seq<(EntityId, Health)>, events: Seq<DamageEvent>) -> Seq<
    (EntityId, Health),
> {
    Seq::new(
        healths.len(),
        |i: int| (healths[i].0, healths[i].1.after_damage(total_damage(events, healths[i].0))),
    )
}

/// Applies the tick's damage events: each entity with health loses the damage
/// of every event that targets it. An event whose target has no health does
/// nothing.
pub fn process_damage_events(events: &Vec<DamageEvent>, healths: &mut Vec<(EntityId, Health)>)
    ensures
        final(healths)@ == damaged(old(healths)@, events@),
{
    let ghost before = healths@;
    let mut k: usize = 0;
    while k < events.len()
        invariant
            k <= events.len(),
            healths@.len() == before.len(),
            forall|i: int|
                0 <= i < before.len() ==> {
                    &&& (#[trigger] healths@[i]).0 == before[i].0
                    &&& healths@[i].1 == before[i].1.after_damage(
                        total_damage(events@.take(k as int), before[i].0),
                    )
                },
        decreases events.len() - k,
    {
        let event: DamageEvent = events[k];
        let ghost during = healths@;
        proof {
            let upto = events@.take(k as int + 1);
            assert(upto.drop_last() == events@.take(k as int));
            assert(upto.last() == event);
        }
        let mut j: usize = 0;
        while j < healths.len()
            invariant
                j <= healths.len(),
                healths@.len() == during.len(),
                forall|i: int|
                    0 <= i < j ==> {
                        &&& (#[trigger] healths@[i]).0 == during[i].0
                        &&& healths@[i].1 == if during[i].0 == event.target {
                            during[i].1.after_damage(event.damage as int)
                        } else {
                            during[i].1
                        }
                    },
                forall|i: int| j <= i < during.len() ==> #[trigger] healths@[i] == during[i],
            decreases healths.len() - j,
        {
            let (entity, health) = healths[j];
            if entity == event.target {
                let mut hurt: Health = health;
                hurt.take_damage(event.damage);
                healths.set(j, (entity, hurt));
            }
            j = j + 1;
        }
        proof {
            assert forall|i: int| 0 <= i < before.len() implies {
                &&& (#[trigger] healths@[i]).0 == before[i].0
                &&& healths@[i].1 == before[i].1.after_damage(
                    total_damage(events@.take(k as int + 1), before[i].0),
                )
            } by {
                lemma_total_damage_is_not_negative(events@.take(k as int), before[i].0);
                lemma_damage_accumulates(
                    before[i].1,
                    total_damage(events@.take(k as int), before[i].0),
                    event.damage as int,
                );
            }
        }
        k = k + 1;
    }
    proof {
        assert(events@.take(k as int) == events@);
        assert(healths@ =~= damaged(before, events@));
    }
}

/// The entries of `healths` that have hit points left, in their order.
pub open spec fn survivors(healths: Seq<(EntityId, Health)>) -> Seq<(EntityId, Health)>
    decreases healths.len(),
{
    if healths.len() == 0 {
        Seq::empty()
    } else if healths.last().1.spec_is_dead() {
        survivors(healths.drop_last())
    } else {
        survivors(healths.drop_last()).push(healths.last())
    }
}

/// The entities of `healths` that have no hit points left, in their order.
pub open spec fn casualties(healths: Seq<(EntityId, Health)>) -> Seq<EntityId>
    decreases healths.len(),
{
    if healths.len() == 0 {
        Seq::empty()
    } else if healths.last().1.spec_is_dead() {
        casualties(healths.drop_last()).push(healths.last().0)
    } else {
        casualties(healths.drop_last())
    }
}

/// `entity` has an entry in `healths` without hit points left.
pub open spec fn is_dead_in(healths: Seq<(EntityId, Health)>, entity: EntityId) -> bool {
    exists|j: int|
        0 <= j < healths.len() && (#[trigger] healths[j]).0 == entity && healths[j].1.spec_is_dead()
}

/// Every entry is either among the survivors or among the casualties, no
/// survivor is dead and every casualty is.
pub proof fn lemma_sweep_parts(healths: Seq<(EntityId, Health)>)
    ensures
        forall|i: int|
            0 <= i < survivors(healths).len() ==> {
                &&& !(#[trigger] survivors(healths)[i]).1.spec_is_dead()
                &&& healths.contains(survivors(healths)[i])
            },
        forall|i: int|
            0 <= i < healths.len() && (#[trigger] healths[i]).1.spec_is_dead() ==> casualties(
                healths,
            ).contains(healths[i].0),
        forall|i: int|
            0 <= i < healths.len() && !(#[trigger] healths[i]).1.spec_is_dead() ==> survivors(
                healths,
            ).contains(healths[i]),
        forall|i: int|
            0 <= i < casualties(healths).len() ==> is_dead_in(
                healths,
                #[trigger] casualties(healths)[i],
            ),
    decreases healths.len(),
{
    if healths.len() > 0 {
        let rest = healths.drop_last();
        let last = healths.last();
        lemma_sweep_parts(rest);
        let s = survivors(healths);
        let c = casualties(healths);
        assert forall|i: int| 0 <= i < s.len() implies {
            &&& !(#[trigger] s[i]).1.spec_is_dead()
            &&& healths.contains(s[i])
        } by {
            if i < survivors(rest).len() {
                assert(s[i] == survivors(rest)[i]);
                let j = choose|j: int| 0 <= j < rest.len() && rest[j] == survivors(rest)[i];
                assert(healths[j] == s[i]);
            } else {
                assert(s[i] == last);
                assert(healths[healths.len() - 1] == last);
            }
        }
        assert forall|i: int|
            0 <= i < healths.len() && (#[trigger] healths[i]).1.spec_is_dead() implies c.contains(
            healths[i].0,
        ) by {
            if i < rest.len() {
                assert(rest[i] == healths[i]);
                let j = choose|j: int|
                    0 <= j < casualties(rest).len() && casualties(rest)[j] == healths[i].0;
                assert(c[j] == healths[i].0);
            } else {
                assert(c[c.len() - 1] == last.0);
            }
        }
        assert forall|i: int|
            0 <= i < healths.len() && !(#[trigger] healths[i]).1.spec_is_dead() implies s.contains(
            healths[i],
        ) by {
            if i < rest.len() {
                assert(rest[i] == healths[i]);
                let j = choose|j: int|
                    0 <= j < survivors(rest).len() && survivors(rest)[j] == healths[i];
                assert(s[j] == healths[i]);
            } else {
                assert(s[s.len() - 1] == last);
            }
        }
        assert forall|i: int| 0 <= i < c.len() implies is_dead_in(healths, #[trigger] c[i]) by {
            if i < casualties(rest).len() {
                assert(c[i] == casualties(rest)[i]);
                assert(is_dead_in(rest, casualties(rest)[i]));
                let j = choose|j: int|
                    0 <= j < rest.len() && (#[trigger] rest[j]).0 == c[i] && rest[j].1.spec_is_dead();
                assert(healths[j] == rest[j]);
            } else {
                assert(healths[healths.len() - 1] == last);
            }
        }
    }
}

/// Sweeps the dead: every entity without hit points left is taken out of
/// `healths` and returned, for the caller to destroy with all it owns. The
/// entries are read first and removed together, after the sweep.
pub fn handle_death(healths: &mut Vec<(EntityId, Health)>) -> (dead: Vec<EntityId>)
    ensures
        final(healths)@ == survivors(old(healths)@),
        dead@ == casualties(old(healths)@),
        forall|i: int|
            0 <= i < final(healths)@.len() ==> (#[trigger] final(healths)@[i]).1.hit_points > 0,
        forall|i: int|
            0 <= i < old(healths)@.len() && (#[trigger] old(healths)@[i]).1.hit_points <= 0
                ==> dead@.contains(old(healths)@[i].0),
        forall|i: int| 0 <= i < dead@.len() ==> is_dead_in(old(healths)@, #[trigger] dead@[i]),
{
    let mut alive: Vec<(EntityId, Health)> = Vec::new();
    let mut dead: Vec<EntityId> = Vec::new();
    let mut i: usize = 0;
    while i < healths.len()
        invariant
            i <= healths.len(),
            healths@ == old(healths)@,
            alive@ == survivors(healths@.take(i as int)),
            dead@ == casualties(healths@.take(i as int)),
        decreases healths.len() - i,
    {
        let (entity, health) = healths[i];
        proof {
            let upto = healths@.take(i as int + 1);
            assert(upto.drop_last() == healths@.take(i as int));
            assert(upto.last() == (entity, health));
        }
        if health.is_dead() {
            dead.push(entity);
        } else {
            alive.push((entity, health));
        }
        i = i + 1;
    }
    proof {
        assert(healths@.take(i as int) == healths@);
        lemma_sweep_parts(healths@);
    }
    *healths = alive;
    dead
}

/// The last phase of a tick: applies the tick's damage events, then sweeps
/// the dead. No entity that is left has run out of hit points, and every
/// entity that has is among the dead.
pub fn apply_damage_and_sweep(events: &Vec<DamageEvent>, healths: &mut Vec<(EntityId, Health)>) -> (dead:
    Vec<EntityId>)
    ensures
        final(healths)@ == survivors(damaged(old(healths)@, events@)),
        dead@ == casualties(damaged(old(healths)@, events@)),
        forall|i: int|
            0 <= i < final(healths)@.len() ==> (#[trigger] final(healths)@[i]).1.hit_points > 0,
        forall|i: int|
            0 <= i < old(healths)@.len() && (#[trigger] damaged(
                old(healths)@,
                events@,
            )[i]).1.hit_points <= 0 ==> dead@.contains(old(healths)@[i].0),
{
    process_damage_events(events, healths);
    handle_death(healths)
}

} // verus!
