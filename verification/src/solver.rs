//! The bookkeeping of the contact solver: which pairs of bodies it works on,
//! and the impulses it keeps from one step to the next for warm starting.
use vstd::prelude::*;

use crate::components::{BodyFlags, BodyType, ContactId, EntityId};
use crate::narrowphase::CollisionCache;
use crate::pair_set::EntityPair;

verus! {

/// The key of a cached impulse: the ordered pair of bodies and the contact
/// point.
pub type ImpulseKey = (EntityId, EntityId, ContactId);

/// Compares two keys field by field.
pub fn impulse_key_eq(p: &ImpulseKey, q: &ImpulseKey) -> (r: bool)
    ensures
        r == (*p == *q),
{
    p.0 == q.0 && p.1 == q.1 && p.2 == q.2
}

/// Whether no key occurs twice among `entries`.
pub open spec fn keys_distinct<V>(entries: Seq<(ImpulseKey, V)>) -> bool {
    forall|i: int, j: int|
        0 <= i < j < entries.len() ==> #[trigger] entries[i].0 != #[trigger] entries[j].0
}

/// Whether `k` is a key of `entries`.
pub open spec fn has_key<V>(entries: Seq<(ImpulseKey, V)>, k: ImpulseKey) -> bool {
    exists|i: int| 0 <= i < entries.len() && #[trigger] entries[i].0 == k
}

/// The position of key `k` among `entries`.
pub open spec fn index_of<V>(entries: Seq<(ImpulseKey, V)>, k: ImpulseKey) -> int {
    choose|i: int| 0 <= i < entries.len() && #[trigger] entries[i].0 == k
}

/// The map from each key of `entries` to its value.
pub open spec fn entries_map<V>(entries: Seq<(ImpulseKey, V)>) -> Map<ImpulseKey, V> {
    Map::new(|k: ImpulseKey| has_key(entries, k), |k: ImpulseKey| entries[index_of(entries, k)].1)
}

proof fn lemma_index_of_unique<V>(entries: Seq<(ImpulseKey, V)>, i: int)
    requires
        keys_distinct(entries),
        0 <= i < entries.len(),
    ensures
        has_key(entries, entries[i].0),
        index_of(entries, entries[i].0) == i,
{
    let k = entries[i].0;
    assert(entries[i].0 == k);
    let j = index_of(entries, k);
    if j != i {
        if j < i {
            assert(entries[j].0 != entries[i].0);
        } else {
            assert(entries[i].0 != entries[j].0);
        }
    }
}

/// Position of `key` among `entries`, if it is there.
fn find_key<V>(entries: &Vec<(ImpulseKey, V)>, key: &ImpulseKey) -> (r: Option<usize>)
    ensures
        match r {
            Some(i) => i < entries@.len() && entries@[i as int].0 == *key,
            None => !has_key(entries@, *key),
        },
{
    let n: usize = entries.len();
    let mut i: usize = 0;
    while i < n
        invariant
            n == entries@.len(),
            i <= n,
            forall|k: int| 0 <= k < i ==> entries@[k].0 != *key,
        decreases n - i,
    {
        if impulse_key_eq(&entries[i].0, key) {
            return Some(i);
        }
        i = i + 1;
    }
    None
}

/// The accumulated impulses of the contact points of the previous steps, one
/// value of type `V` per key.
pub struct ContactImpulseCache<V> {
    entries: Vec<(ImpulseKey, V)>,
}

impl<V> ContactImpulseCache<V> {
    #[verifier::type_invariant]
    spec fn distinct(self) -> bool {
        keys_distinct(self.entries@)
    }
}

impl<V> View for ContactImpulseCache<V> {
    type V = Map<ImpulseKey, V>;

    closed spec fn view(&self) -> Map<ImpulseKey, V> {
        entries_map(self.entries@)
    }
}

impl<V: Copy> ContactImpulseCache<V> {
    /// An empty cache.
    pub fn new() -> (r: ContactImpulseCache<V>)
        ensures
            r@ == Map::<ImpulseKey, V>::empty(),
    {
        let r = ContactImpulseCache { entries: Vec::new() };
        assert(r@ =~= Map::<ImpulseKey, V>::empty());
        r
    }

    /// The value cached for `key`, if any.
    pub fn get(&self, key: &ImpulseKey) -> (r: Option<V>)
        ensures
            r == (if self@.contains_key(*key) {
                Some(self@[*key])
            } else {
                None
            }),
    {
        proof {
            use_type_invariant(self);
        }
        match find_key(&self.entries, key) {
            Some(i) => {
                proof {
                    lemma_index_of_unique(self.entries@, i as int);
                }
                Some(self.entries[i].1)
            },
            None => None,
        }
    }

    /// Caches `value` for `key`, replacing what was there; returns the value
    /// that was replaced.
    pub fn insert(&mut self, key: ImpulseKey, value: V) -> (r: Option<V>)
        ensures
            final(self)@ == old(self)@.insert(key, value),
            r == (if old(self)@.contains_key(key) {
                Some(old(self)@[key])
            } else {
                None
            }),
    {
        proof {
            use_type_invariant(&*self);
        }
        let mut v: Vec<(ImpulseKey, V)> = Vec::new();
        std::mem::swap(&mut v, &mut self.entries);
        let ghost s = v@;
        assert(entries_map(s) == old(self)@);
        match find_key(&v, &key) {
            Some(i) => {
                let prev: V = v[i].1;
                proof {
                    lemma_index_of_unique(s, i as int);
                }
                v.set(i, (key, value));
                proof {
                    let t = v@;
                    assert(t == s.update(i as int, (key, value)));
                    assert(keys_distinct(t)) by {
                        assert forall|a: int, b: int| 0 <= a < b < t.len() implies #[trigger] t[a].0
                            != #[trigger] t[b].0 by {
                            assert(s[a].0 != s[b].0);
                        }
                    }
                    assert forall|k: ImpulseKey| has_key(t, k) == has_key(s, k) by {
                        if has_key(s, k) {
                            let j = index_of(s, k);
                            if j == i {
                                assert(t[i as int].0 == k);
                            } else {
                                assert(t[j].0 == k);
                            }
                        }
                        if has_key(t, k) {
                            let j = index_of(t, k);
                            if j == i {
                                assert(s[i as int].0 == k);
                            } else {
                                assert(s[j].0 == k);
                            }
                        }
                    }
                    assert forall|k: ImpulseKey| #[trigger] has_key(t, k) && k != key implies t[index_of(
                        t,
                        k,
                    )].1 == s[index_of(s, k)].1 by {
                        let j = index_of(t, k);
                        assert(j != i);
                        lemma_index_of_unique(s, j);
                    }
                    lemma_index_of_unique(t, i as int);
                    assert(entries_map(t) =~= entries_map(s).insert(key, value));
                }
                self.entries = v;
                Some(prev)
            },
            None => {
                v.push((key, value));
                proof {
                    let t = v@;
                    assert(t == s.push((key, value)));
                    assert(keys_distinct(t)) by {
                        assert forall|a: int, b: int| 0 <= a < b < t.len() implies #[trigger] t[a].0
                            != #[trigger] t[b].0 by {
                            if b == s.len() {
                                assert(s[a].0 == t[a].0);
                            } else {
                                assert(s[a].0 != s[b].0);
                            }
                        }
                    }
                    assert forall|k: ImpulseKey| #[trigger] has_key(t, k) == (has_key(s, k) || k
                        == key) by {
                        if has_key(s, k) {
                            let j = index_of(s, k);
                            assert(t[j].0 == k);
                        }
                        if has_key(t, k) && k != key {
                            let j = index_of(t, k);
                            assert(s[j].0 == k);
                        }
                        if k == key {
                            assert(t[s.len() as int].0 == k);
                        }
                    }
                    assert forall|k: ImpulseKey| #[trigger] has_key(t, k) && k != key implies t[index_of(
                        t,
                        k,
                    )].1 == s[index_of(s, k)].1 by {
                        let j = index_of(t, k);
                        assert(j < s.len());
                        assert(s[j] == t[j]);
                        lemma_index_of_unique(s, j);
                    }
                    lemma_index_of_unique(t, s.len() as int);
                    assert(entries_map(t) =~= entries_map(s).insert(key, value));
                }
                self.entries = v;
                None
            },
        }
    }
}

/// Whether the cached impulse of key `k` belongs to a pair that is in contact
/// this step.
pub open spec fn key_is_live(current: Seq<EntityPair>, k: ImpulseKey) -> bool {
    current.contains((k.0, k.1))
}

/// Drops the cached impulses of the pairs that are no longer in contact.
pub fn prune_impulse_cache<V: Copy>(
    impulse_cache: &mut ContactImpulseCache<V>,
    collision_cache: &CollisionCache,
)
    ensures
        final(impulse_cache)@ == Map::new(
            |k: ImpulseKey|
                old(impulse_cache)@.contains_key(k) && key_is_live(collision_cache.current@, k),
            |k: ImpulseKey| old(impulse_cache)@[k],
        ),
{
    proof {
        use_type_invariant(&*impulse_cache);
    }
    let mut v: Vec<(ImpulseKey, V)> = Vec::new();
    std::mem::swap(&mut v, &mut impulse_cache.entries);
    let ghost s = v@;
    let ghost cur = collision_cache.current@;
    let n: usize = v.len();
    let mut out: Vec<(ImpulseKey, V)> = Vec::new();
    let mut i: usize = 0;
    while i < n
        invariant
            n == s.len(),
            v@ == s,
            cur == collision_cache.current@,
            keys_distinct(s),
            i <= n,
            keys_distinct(out@),
            forall|k: ImpulseKey|
                #[trigger] has_key(out@, k) <==> (exists|a: int|
                    0 <= a < i && #[trigger] s[a].0 == k) && key_is_live(cur, k),
            forall|k: ImpulseKey|
                #[trigger] has_key(out@, k) ==> out@[index_of(out@, k)].1 == s[index_of(s, k)].1,
        decreases n - i,
    {
        let e: (ImpulseKey, V) = v[i];
        let pair: EntityPair = (e.0.0, e.0.1);
        let keep: bool = collision_cache.current.contains(&pair);
        let ghost before = out@;
        proof {
            lemma_index_of_unique(s, i as int);
        }
        if keep {
            out.push(e);
            proof {
                let t = out@;
                assert(t == before.push(e));
                assert(!has_key(before, e.0)) by {
                    if has_key(before, e.0) {
                        let a = choose|a: int| 0 <= a < i && #[trigger] s[a].0 == e.0;
                        assert(s[a].0 != s[i as int].0);
                    }
                }
                assert(keys_distinct(t)) by {
                    assert forall|a: int, b: int| 0 <= a < b < t.len() implies #[trigger] t[a].0
                        != #[trigger] t[b].0 by {
                        if b == before.len() {
                            assert(t[a] == before[a]);
                        } else {
                            assert(before[a].0 != before[b].0);
                        }
                    }
                }
                assert forall|k: ImpulseKey| #[trigger] has_key(t, k) == (has_key(before, k) || k
                    == e.0) by {
                    if has_key(before, k) {
                        let j = index_of(before, k);
                        assert(t[j].0 == k);
                    }
                    if has_key(t, k) && k != e.0 {
                        let j = index_of(t, k);
                        assert(before[j].0 == k);
                    }
                    if k == e.0 {
                        assert(t[before.len() as int].0 == k);
                    }
                }
                assert forall|k: ImpulseKey| #[trigger] has_key(t, k) implies t[index_of(t, k)].1
                    == s[index_of(s, k)].1 by {
                    let j = index_of(t, k);
                    if j < before.len() {
                        assert(t[j] == before[j]);
                        lemma_index_of_unique(before, j);
                    } else {
                        assert(k == e.0);
                    }
                }
            }
        }
        i = i + 1;
        proof {
            assert forall|k: ImpulseKey|
                #[trigger] has_key(out@, k) <==> (exists|a: int| 0 <= a < i && #[trigger] s[a].0 == k)
                    && key_is_live(cur, k) by {
                if exists|a: int| 0 <= a < i && #[trigger] s[a].0 == k {
                    let a = choose|a: int| 0 <= a < i && #[trigger] s[a].0 == k;
                    if a < i - 1 {
                        assert(exists|b: int| 0 <= b < i - 1 && #[trigger] s[b].0 == k);
                    }
                }
            }
        }
    }
    proof {
        assert forall|k: ImpulseKey| #[trigger] has_key(s, k) implies exists|a: int|
            0 <= a < n && #[trigger] s[a].0 == k by {
            let a = index_of(s, k);
        }
        assert(entries_map(out@) =~= Map::new(
            |k: ImpulseKey| entries_map(s).contains_key(k) && key_is_live(cur, k),
            |k: ImpulseKey| entries_map(s)[k],
        ));
    }
    impulse_cache.entries = out;
}

/// The key under which the solver caches the impulses of two bodies: the pair
/// with the entity of the smaller index first.
pub fn pair_key(a: EntityId, b: EntityId) -> (r: EntityPair)
    ensures
        r == crate::narrowphase::ordered(a, b),
{
    if a.index < b.index {
        (a, b)
    } else {
        (b, a)
    }
}

/// What the solver reads of a body to decide whether it works on it.
#[derive(Debug, Clone, Copy, PartialEq, Eq, Structural)]
pub struct BodyStatus {
    pub body_type: BodyType,
    pub flags: BodyFlags,
    pub is_sleeping: bool,
}

/// A body takes contact impulses when it moves (dynamic or kinematic) and has
/// both the solver and collisions switched on.
pub open spec fn takes_contact_impulses(b: BodyStatus) -> bool {
    &&& (b.body_type == BodyType::Dynamic || b.body_type == BodyType::Kinematic)
    &&& b.flags.has(BodyFlags::ENABLE_SOLVER)
    &&& b.flags.has(BodyFlags::ENABLE_COLLISIONS)
}

/// The solver works on a contact when at least one of its bodies takes
/// impulses and, with sleeping enabled, not both bodies sleep.
pub open spec fn contact_is_solved(a: BodyStatus, b: BodyStatus, sleep_enable: bool) -> bool {
    (takes_contact_impulses(a) || takes_contact_impulses(b)) && !(sleep_enable && a.is_sleeping
        && b.is_sleeping)
}

pub fn contact_pair_active(a: BodyStatus, b: BodyStatus, sleep_enable: bool) -> (r: bool)
    ensures
        r == contact_is_solved(a, b, sleep_enable),
{
    let a_active: bool = a.body_type == BodyType::Dynamic || a.body_type == BodyType::Kinematic;
    let b_active: bool = b.body_type == BodyType::Dynamic || b.body_type == BodyType::Kinematic;
    let a_solve: bool = a_active && a.flags.contains(BodyFlags::ENABLE_SOLVER) && a.flags.contains(
        BodyFlags::ENABLE_COLLISIONS,
    );
    let b_solve: bool = b_active && b.flags.contains(BodyFlags::ENABLE_SOLVER) && b.flags.contains(
        BodyFlags::ENABLE_COLLISIONS,
    );
    if !a_solve && !b_solve {
        return false;
    }
    !(sleep_enable && a.is_sleeping && b.is_sleeping)
}

/// Whether impulses move a body: only dynamic bodies are moved, each only
/// along what its flags allow.
pub fn impulse_moves(body: BodyStatus, flag: u32) -> (r: bool)
    ensures
        r == (body.body_type == BodyType::Dynamic && body.flags.has(flag)),
{
    body.body_type == BodyType::Dynamic && body.flags.contains(flag)
}

/// Whether the velocities of a body are derived from how its transform moved:
/// kinematic bodies that take part in collisions.
pub fn kinematic_velocity_tracked(body: BodyStatus) -> (r: bool)
    ensures
        r == (body.body_type == BodyType::Kinematic && body.flags.has(BodyFlags::ENABLE_COLLISIONS)),
{
    body.body_type == BodyType::Kinematic && body.flags.contains(BodyFlags::ENABLE_COLLISIONS)
}

/// The number of solver passes for a configured count: at least one.
pub fn iteration_count(configured: u32) -> (r: u32)
    ensures
        r == (if configured >= 1 {
            configured
        } else {
            1
        }),
{
    if configured >= 1 {
        configured
    } else {
        1
    }
}

/// The solver treats contacts symmetrically: swapping the two bodies does not
/// change whether a contact is solved.
pub proof fn law_contact_solved_symmetric(a: BodyStatus, b: BodyStatus, sleep_enable: bool)
    ensures
        contact_is_solved(a, b, sleep_enable) == contact_is_solved(b, a, sleep_enable),
{
}

/// What is read back from the cache is what was last written under that key,
/// and a write leaves the other keys as they were.
pub proof fn law_cache_read_after_write<V>(
    before: Map<ImpulseKey, V>,
    key: ImpulseKey,
    value: V,
    other: ImpulseKey,
)
    requires
        other != key,
    ensures
        before.insert(key, value).contains_key(key),
        before.insert(key, value)[key] == value,
        before.insert(key, value).contains_key(other) == before.contains_key(other),
        before.contains_key(other) ==> before.insert(key, value)[other] == before[other],
{
}

/// A dynamic body with the solver and collisions on is solved against any
/// body, in either order, unless both sleep with sleeping enabled; a static
/// body never takes impulses, so two static bodies are never solved; nor is a
/// pair where both sleep with sleeping enabled.
pub proof fn law_contact_solving(a: BodyStatus, b: BodyStatus, sleep_enable: bool)
    ensures
        a.body_type == BodyType::Dynamic && a.flags.has(BodyFlags::ENABLE_SOLVER) && a.flags.has(
            BodyFlags::ENABLE_COLLISIONS,
        ) && !a.is_sleeping ==> contact_is_solved(a, b, sleep_enable) && contact_is_solved(
            b,
            a,
            sleep_enable,
        ),
        a.body_type == BodyType::Kinematic && a.flags.has(BodyFlags::ENABLE_SOLVER) && a.flags.has(
            BodyFlags::ENABLE_COLLISIONS,
        ) && !a.is_sleeping ==> contact_is_solved(a, b, sleep_enable),
        a.body_type == BodyType::Static && b.body_type == BodyType::Static ==> !contact_is_solved(
            a,
            b,
            sleep_enable,
        ),
        sleep_enable && a.is_sleeping && b.is_sleeping ==> !contact_is_solved(a, b, sleep_enable),
        !sleep_enable && a.body_type == BodyType::Dynamic && a.flags.has(BodyFlags::ENABLE_SOLVER)
            && a.flags.has(BodyFlags::ENABLE_COLLISIONS) ==> contact_is_solved(a, b, sleep_enable),
        !a.flags.has(BodyFlags::ENABLE_SOLVER) && !b.flags.has(BodyFlags::ENABLE_SOLVER)
            ==> !contact_is_solved(a, b, sleep_enable),
{
}

/// A cached impulse survives pruning exactly when its pair of bodies is among
/// the pairs in contact.
pub proof fn law_live_keys(current: Seq<EntityPair>, k: ImpulseKey)
    ensures
        key_is_live(current, k) <==> exists|i: int| 0 <= i < current.len() && current[i] == (k.0, k.1),
{
}

} // verus!
