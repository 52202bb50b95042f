//! Contact events: which pairs started or stopped touching since the previous
//! step, reported as collisions or, where a sensor takes part, as triggers.
use vstd::prelude::*;

use crate::components::EntityId;
use crate::narrowphase::CollisionCache;
use crate::pair_set::EntityPair;

verus! {

/// Two solid colliders started (`started`) or stopped touching.
#[derive(Debug, Clone, Copy, PartialEq, Eq, Structural)]
pub struct CollisionEvent {
    pub a: EntityId,
    pub b: EntityId,
    pub started: bool,
}

/// A pair with a sensor in it started (`started`) or stopped touching. The
/// `sensor` is the first entity of the pair, whichever of the two the sensor
/// is.
#[derive(Debug, Clone, Copy, PartialEq, Eq, Structural)]
pub struct TriggerEvent {
    pub sensor: EntityId,
    pub other: EntityId,
    pub started: bool,
}

/// The events of one step, each stream in the order in which they were
/// written.
pub struct ContactEvents {
    pub collisions: Vec<CollisionEvent>,
    pub triggers: Vec<TriggerEvent>,
}

/// Whether `e` is a sensor according to the list of colliders: the first
/// entry for `e` decides; an entity without an entry is not a sensor.
pub open spec fn listed_as_sensor(colliders: Seq<(EntityId, bool)>, e: EntityId) -> bool {
    exists|i: int|
        0 <= i < colliders.len() && #[trigger] colliders[i].0 == e && colliders[i].1 && forall|k: int|
            0 <= k < i ==> colliders[k].0 != e
}

/// Whether either entity of the pair is a sensor.
pub open spec fn pair_has_sensor(colliders: Seq<(EntityId, bool)>, p: EntityPair) -> bool {
    listed_as_sensor(colliders, p.0) || listed_as_sensor(colliders, p.1)
}

/// The collision events for the pairs of `pairs` that are not in `other` and
/// have no sensor, in the order of `pairs`.
pub open spec fn collision_changes(
    pairs: Seq<EntityPair>,
    other: Seq<EntityPair>,
    colliders: Seq<(EntityId, bool)>,
    started: bool,
) -> Seq<CollisionEvent>
    decreases pairs.len(),
{
    if pairs.len() == 0 {
        Seq::empty()
    } else {
        let before = collision_changes(pairs.drop_last(), other, colliders, started);
        let p = pairs.last();
        if !other.contains(p) && !pair_has_sensor(colliders, p) {
            before.push(CollisionEvent { a: p.0, b: p.1, started })
        } else {
            before
        }
    }
}

/// The trigger events for the pairs of `pairs` that are not in `other` and
/// have a sensor, in the order of `pairs`.
pub open spec fn trigger_changes(
    pairs: Seq<EntityPair>,
    other: Seq<EntityPair>,
    colliders: Seq<(EntityId, bool)>,
    started: bool,
) -> Seq<TriggerEvent>
    decreases pairs.len(),
{
    if pairs.len() == 0 {
        Seq::empty()
    } else {
        let before = trigger_changes(pairs.drop_last(), other, colliders, started);
        let p = pairs.last();
        if !other.contains(p) && pair_has_sensor(colliders, p) {
            before.push(TriggerEvent { sensor: p.0, other: p.1, started })
        } else {
            before
        }
    }
}

/// Whether `e` is a sensor: the first entry of `colliders` for `e` decides,
/// and an entity without an entry is not one.
pub fn entity_is_sensor(colliders: &Vec<(EntityId, bool)>, e: EntityId) -> (r: bool)
    ensures
        r == listed_as_sensor(colliders@, e),
{
    let n: usize = colliders.len();
    let mut i: usize = 0;
    while i < n
        invariant
            n == colliders@.len(),
            i <= n,
            forall|k: int| 0 <= k < i ==> colliders@[k].0 != e,
        decreases n - i,
    {
        let (entity, is_sensor) = colliders[i];
        if entity == e {
            proof {
                if !is_sensor {
                    assert forall|j: int|
                        0 <= j < colliders@.len() && #[trigger] colliders@[j].0 == e
                            && colliders@[j].1 implies exists|k: int|
                        0 <= k < j && colliders@[k].0 == e by {
                        assert(j != i);
                        if j < i {
                            assert(colliders@[j].0 != e);
                        } else {
                            assert(0 <= i < j && colliders@[i as int].0 == e);
                        }
                    }
                }
            }
            return is_sensor;
        }
        i = i + 1;
    }
    false
}

/// Appends the events of the pairs of `pairs` that are not in `other`.
fn push_changes(
    events: &mut ContactEvents,
    pairs: &crate::pair_set::PairSet,
    other: &crate::pair_set::PairSet,
    colliders: &Vec<(EntityId, bool)>,
    started: bool,
)
    ensures
        final(events).collisions@ == old(events).collisions@ + collision_changes(
            pairs@,
            other@,
            colliders@,
            started,
        ),
        final(events).triggers@ == old(events).triggers@ + trigger_changes(
            pairs@,
            other@,
            colliders@,
            started,
        ),
        pairs@.no_duplicates(),
{
    let n: usize = pairs.len();
    let mut i: usize = 0;
    while i < n
        invariant
            n == pairs@.len(),
            i <= n,
            events.collisions@ == old(events).collisions@ + collision_changes(
                pairs@.take(i as int),
                other@,
                colliders@,
                started,
            ),
            events.triggers@ == old(events).triggers@ + trigger_changes(
                pairs@.take(i as int),
                other@,
                colliders@,
                started,
            ),
        decreases n - i,
    {
        let p: EntityPair = pairs.get(i);
        proof {
            assert(pairs@.take(i + 1).drop_last() =~= pairs@.take(i as int));
            assert(pairs@.take(i + 1).last() == p);
        }
        if !other.contains(&p) {
            let is_sensor: bool = entity_is_sensor(colliders, p.0) || entity_is_sensor(
                colliders,
                p.1,
            );
            if is_sensor {
                events.triggers.push(TriggerEvent { sensor: p.0, other: p.1, started });
            } else {
                events.collisions.push(CollisionEvent { a: p.0, b: p.1, started });
            }
        }
        i = i + 1;
        proof {
            assert(events.collisions@ =~= old(events).collisions@ + collision_changes(
                pairs@.take(i as int),
                other@,
                colliders@,
                started,
            ));
            assert(events.triggers@ =~= old(events).triggers@ + trigger_changes(
                pairs@.take(i as int),
                other@,
                colliders@,
                started,
            ));
        }
    }
    proof {
        assert(pairs@.take(n as int) =~= pairs@);
    }
}

/// Reports the pairs that started touching (in the current step, not in the
/// previous one) and then those that stopped (in the previous step, not in
/// the current one), and makes the current pairs the previous ones.
/// `colliders` lists, for each collider, its entity and whether it is a
/// sensor.
pub fn emit_contact_events(cache: &mut CollisionCache, colliders: &Vec<(EntityId, bool)>) -> (r:
    ContactEvents)
    ensures
        r.collisions@ == collision_changes(
            old(cache).current@,
            old(cache).previous@,
            colliders@,
            true,
        ) + collision_changes(old(cache).previous@, old(cache).current@, colliders@, false),
        r.triggers@ == trigger_changes(
            old(cache).current@,
            old(cache).previous@,
            colliders@,
            true,
        ) + trigger_changes(old(cache).previous@, old(cache).current@, colliders@, false),
        r.collisions@.no_duplicates(),
        r.triggers@.no_duplicates(),
        final(cache).current@ == old(cache).current@,
        final(cache).previous@ == old(cache).current@,
{
    let mut events: ContactEvents = ContactEvents { collisions: Vec::new(), triggers: Vec::new() };
    push_changes(&mut events, &cache.current, &cache.previous, colliders, true);
    push_changes(&mut events, &cache.previous, &cache.current, colliders, false);
    cache.previous = cache.current.duplicate();
    proof {
        let cur = old(cache).current@;
        let prev = old(cache).previous@;
        lemma_changes_distinct(cur, prev, colliders@, true);
        lemma_changes_distinct(prev, cur, colliders@, false);
        lemma_concat_distinct_collisions(
            collision_changes(cur, prev, colliders@, true),
            collision_changes(prev, cur, colliders@, false),
        );
        lemma_concat_distinct_triggers(
            trigger_changes(cur, prev, colliders@, true),
            trigger_changes(prev, cur, colliders@, false),
        );
        assert(events.collisions@ =~= collision_changes(
            old(cache).current@,
            old(cache).previous@,
            colliders@,
            true,
        ) + collision_changes(old(cache).previous@, old(cache).current@, colliders@, false));
        assert(events.triggers@ =~= trigger_changes(
            old(cache).current@,
            old(cache).previous@,
            colliders@,
            true,
        ) + trigger_changes(old(cache).previous@, old(cache).current@, colliders@, false));
    }
    events
}

proof fn lemma_no_changes(
    pairs: Seq<EntityPair>,
    other: Seq<EntityPair>,
    colliders: Seq<(EntityId, bool)>,
    started: bool,
)
    requires
        forall|i: int| 0 <= i < pairs.len() ==> other.contains(#[trigger] pairs[i]),
    ensures
        collision_changes(pairs, other, colliders, started) == Seq::<CollisionEvent>::empty(),
        trigger_changes(pairs, other, colliders, started) == Seq::<TriggerEvent>::empty(),
    decreases pairs.len(),
{
    if pairs.len() > 0 {
        let init = pairs.drop_last();
        assert forall|i: int| 0 <= i < init.len() implies other.contains(#[trigger] init[i]) by {
            assert(init[i] == pairs[i]);
        }
        lemma_no_changes(init, other, colliders, started);
        assert(other.contains(pairs[pairs.len() - 1]));
    }
}

/// Events fire only on change: once the events of a step are emitted, emitting
/// again before the contacts change reports nothing.
pub proof fn law_emit_is_quiet_without_change(
    current: Seq<EntityPair>,
    colliders: Seq<(EntityId, bool)>,
)
    ensures
        collision_changes(current, current, colliders, true) + collision_changes(
            current,
            current,
            colliders,
            false,
        ) == Seq::<CollisionEvent>::empty(),
        trigger_changes(current, current, colliders, true) + trigger_changes(
            current,
            current,
            colliders,
            false,
        ) == Seq::<TriggerEvent>::empty(),
{
    assert forall|i: int| 0 <= i < current.len() implies current.contains(#[trigger] current[i]) by {
    }
    lemma_no_changes(current, current, colliders, true);
    lemma_no_changes(current, current, colliders, false);
    assert(Seq::<CollisionEvent>::empty() + Seq::<CollisionEvent>::empty() =~= Seq::<
        CollisionEvent,
    >::empty());
    assert(Seq::<TriggerEvent>::empty() + Seq::<TriggerEvent>::empty() =~= Seq::<
        TriggerEvent,
    >::empty());
}

/// A collision event is reported for a pair exactly when the pair is among
/// `pairs`, not among `other`, and neither of its entities is a sensor; a
/// trigger event exactly when it is among `pairs`, not among `other`, and
/// either of its entities (the first or the second) is a sensor.
pub proof fn law_changes_exact(
    pairs: Seq<EntityPair>,
    other: Seq<EntityPair>,
    colliders: Seq<(EntityId, bool)>,
    started: bool,
    p: EntityPair,
)
    ensures
        collision_changes(pairs, other, colliders, started).contains(
            CollisionEvent { a: p.0, b: p.1, started },
        ) <==> (pairs.contains(p) && !other.contains(p) && !listed_as_sensor(colliders, p.0)
            && !listed_as_sensor(colliders, p.1)),
        trigger_changes(pairs, other, colliders, started).contains(
            TriggerEvent { sensor: p.0, other: p.1, started },
        ) <==> (pairs.contains(p) && !other.contains(p) && (listed_as_sensor(colliders, p.0)
            || listed_as_sensor(colliders, p.1))),
    decreases pairs.len(),
{
    broadcast use vstd::seq_lib::lemma_seq_contains_after_push;

    if pairs.len() > 0 {
        let init = pairs.drop_last();
        law_changes_exact(init, other, colliders, started, p);
        assert(pairs =~= init.push(pairs.last()));
    }
}

/// Reported changes of a sequence without repeated pairs repeat no event, and
/// each carries the given `started` flag.
proof fn lemma_changes_distinct(
    pairs: Seq<EntityPair>,
    other: Seq<EntityPair>,
    colliders: Seq<(EntityId, bool)>,
    started: bool,
)
    requires
        pairs.no_duplicates(),
    ensures
        collision_changes(pairs, other, colliders, started).no_duplicates(),
        trigger_changes(pairs, other, colliders, started).no_duplicates(),
        forall|i: int|
            0 <= i < collision_changes(pairs, other, colliders, started).len() ==> (#[trigger] collision_changes(
                pairs,
                other,
                colliders,
                started,
            )[i]).started == started,
        forall|i: int|
            0 <= i < trigger_changes(pairs, other, colliders, started).len() ==> (#[trigger] trigger_changes(
                pairs,
                other,
                colliders,
                started,
            )[i]).started == started,
    decreases pairs.len(),
{
    if pairs.len() > 0 {
        let init = pairs.drop_last();
        let p = pairs.last();
        assert(init.no_duplicates()) by {
            assert forall|a: int, b: int| 0 <= a < init.len() && 0 <= b < init.len() && a != b implies init[a]
                != init[b] by {
                assert(init[a] == pairs[a] && init[b] == pairs[b]);
            }
        }
        assert(!init.contains(p)) by {
            if init.contains(p) {
                let k = choose|k: int| 0 <= k < init.len() && init[k] == p;
                assert(pairs[k] == pairs[pairs.len() - 1]);
            }
        }
        lemma_changes_distinct(init, other, colliders, started);
        law_changes_exact(init, other, colliders, started, p);
        let c = collision_changes(init, other, colliders, started);
        let t = trigger_changes(init, other, colliders, started);
        let ce = CollisionEvent { a: p.0, b: p.1, started };
        let te = TriggerEvent { sensor: p.0, other: p.1, started };
        if !other.contains(p) && !pair_has_sensor(colliders, p) {
            assert forall|a: int, b: int|
                0 <= a < c.push(ce).len() && 0 <= b < c.push(ce).len() && a != b implies c.push(ce)[a]
                != c.push(ce)[b] by {
                if a == c.len() {
                    assert(c[b] == c.push(ce)[b]);
                } else if b == c.len() {
                    assert(c[a] == c.push(ce)[a]);
                }
            }
        }
        if !other.contains(p) && pair_has_sensor(colliders, p) {
            assert forall|a: int, b: int|
                0 <= a < t.push(te).len() && 0 <= b < t.push(te).len() && a != b implies t.push(te)[a]
                != t.push(te)[b] by {
                if a == t.len() {
                    assert(t[b] == t.push(te)[b]);
                } else if b == t.len() {
                    assert(t[a] == t.push(te)[a]);
                }
            }
        }
    }
}

proof fn lemma_concat_distinct_collisions(x: Seq<CollisionEvent>, y: Seq<CollisionEvent>)
    requires
        x.no_duplicates(),
        y.no_duplicates(),
        forall|i: int| 0 <= i < x.len() ==> (#[trigger] x[i]).started,
        forall|i: int| 0 <= i < y.len() ==> !(#[trigger] y[i]).started,
    ensures
        (x + y).no_duplicates(),
{
    assert forall|a: int, b: int|
        0 <= a < (x + y).len() && 0 <= b < (x + y).len() && a != b implies (x + y)[a] != (x
        + y)[b] by {
        if a < x.len() && b >= x.len() {
            assert(x[a].started && !y[b - x.len()].started);
        } else if a >= x.len() && b < x.len() {
            assert(x[b].started && !y[a - x.len()].started);
        }
    }
}

proof fn lemma_concat_distinct_triggers(x: Seq<TriggerEvent>, y: Seq<TriggerEvent>)
    requires
        x.no_duplicates(),
        y.no_duplicates(),
        forall|i: int| 0 <= i < x.len() ==> (#[trigger] x[i]).started,
        forall|i: int| 0 <= i < y.len() ==> !(#[trigger] y[i]).started,
    ensures
        (x + y).no_duplicates(),
{
    assert forall|a: int, b: int|
        0 <= a < (x + y).len() && 0 <= b < (x + y).len() && a != b implies (x + y)[a] != (x
        + y)[b] by {
        if a < x.len() && b >= x.len() {
            assert(x[a].started && !y[b - x.len()].started);
        } else if a >= x.len() && b < x.len() {
            assert(x[b].started && !y[a - x.len()].started);
        }
    }
}

/// The sensor lookup reads the first entry of an entity: if entry `i` is the
/// first one for `e`, `e` is a sensor exactly when that entry says so; an
/// entity without an entry is no sensor.
pub proof fn law_sensor_lookup(colliders: Seq<(EntityId, bool)>, e: EntityId, i: int)
    ensures
        (0 <= i < colliders.len() && colliders[i].0 == e && forall|k: int|
            0 <= k < i ==> colliders[k].0 != e) ==> (listed_as_sensor(colliders, e)
            == colliders[i].1),
        (forall|k: int| 0 <= k < colliders.len() ==> colliders[k].0 != e) ==> !listed_as_sensor(
            colliders,
            e,
        ),
{
    if 0 <= i < colliders.len() && colliders[i].0 == e && forall|k: int|
        0 <= k < i ==> colliders[k].0 != e {
        if listed_as_sensor(colliders, e) {
            let j = choose|j: int|
                0 <= j < colliders.len() && #[trigger] colliders[j].0 == e && colliders[j].1
                    && forall|k: int| 0 <= k < j ==> colliders[k].0 != e;
            if j < i {
                assert(colliders[j].0 != e);
            } else if j > i {
                assert(colliders[i].0 != e);
            }
        }
        if colliders[i].1 {
            assert(colliders[i].0 == e);
        }
    }
}

/// A pair is a sensor pair when its first entity is a sensor, and when its
/// second is; with neither a sensor, it is not.
pub proof fn law_either_entity_makes_a_sensor_pair(
    colliders: Seq<(EntityId, bool)>,
    p: EntityPair,
)
    ensures
        listed_as_sensor(colliders, p.0) ==> pair_has_sensor(colliders, p),
        listed_as_sensor(colliders, p.1) ==> pair_has_sensor(colliders, p),
        !listed_as_sensor(colliders, p.0) && !listed_as_sensor(colliders, p.1)
            ==> !pair_has_sensor(colliders, p),
{
}

} // verus!
