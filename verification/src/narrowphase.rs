//! The bookkeeping of the narrow phase: which pairs are in contact this step,
//! which contact routine a pair of shapes takes, how the separating axes of
//! two boxes are classified, and how contact points are named.
use vstd::prelude::*;

use crate::components::{ContactId, EntityId};
use crate::pair_set::{EntityPair, PairSet};

verus! {

/// The pairs of the current and of the previous step.
pub struct CollisionCache {
    pub current: PairSet,
    pub previous: PairSet,
}

impl CollisionCache {
    pub fn new() -> (r: CollisionCache)
        ensures
            r.current@ == Seq::<EntityPair>::empty(),
            r.previous@ == Seq::<EntityPair>::empty(),
    {
        CollisionCache { current: PairSet::new(), previous: PairSet::new() }
    }
}

/// The pair with the entity of the smaller index first; on equal indices the
/// second entity comes first.
pub open spec fn ordered(a: EntityId, b: EntityId) -> EntityPair {
    if a.index < b.index {
        (a, b)
    } else {
        (b, a)
    }
}

pub fn order_pair(a: EntityId, b: EntityId) -> (r: EntityPair)
    ensures
        r == ordered(a, b),
{
    if a.index < b.index {
        (a, b)
    } else {
        (b, a)
    }
}

/// The distinct ordered pairs of `pairs`, each where it first occurs.
pub open spec fn distinct_ordered(pairs: Seq<EntityPair>) -> Seq<EntityPair>
    decreases pairs.len(),
{
    if pairs.len() == 0 {
        Seq::empty()
    } else {
        let before = distinct_ordered(pairs.drop_last());
        let p = ordered(pairs.last().0, pairs.last().1);
        if before.contains(p) {
            before
        } else {
            before.push(p)
        }
    }
}

/// Records the pairs that the broad phase handed over as the pairs in contact
/// this step: each ordered by `order_pair`, once.
pub fn narrowphase_record_pairs(cache: &mut CollisionCache, pairs: &Vec<EntityPair>)
    ensures
        final(cache).current@ == distinct_ordered(pairs@),
        final(cache).previous@ == old(cache).previous@,
{
    cache.current.clear();
    let n: usize = pairs.len();
    let mut i: usize = 0;
    while i < n
        invariant
            n == pairs@.len(),
            i <= n,
            cache.current@ == distinct_ordered(pairs@.take(i as int)),
            cache.previous@ == old(cache).previous@,
        decreases n - i,
    {
        let (a, b) = pairs[i];
        let p: EntityPair = order_pair(a, b);
        cache.current.insert(p);
        proof {
            assert(pairs@.take(i + 1).drop_last() =~= pairs@.take(i as int));
        }
        i = i + 1;
    }
    proof {
        assert(pairs@.take(n as int) =~= pairs@);
    }
}

/// The shape of a collider, without its dimensions.
#[derive(Debug, Clone, Copy, PartialEq, Eq, Structural)]
pub enum ShapeKind {
    Sphere,
    Cuboid,
}

/// The routine that builds the contact manifold of two shapes. A sphere
/// against a box always runs with the sphere first; `swapped` says that the
/// pair came with the box first, so the result has its sides exchanged.
#[derive(Debug, Clone, Copy, PartialEq, Eq, Structural)]
pub enum ManifoldRoutine {
    SphereSphere,
    SphereCuboid { swapped: bool },
    CuboidCuboid,
}

pub fn manifold_routine(a: ShapeKind, b: ShapeKind) -> (r: ManifoldRoutine)
    ensures
        r == (match (a, b) {
            (ShapeKind::Sphere, ShapeKind::Sphere) => ManifoldRoutine::SphereSphere,
            (ShapeKind::Sphere, ShapeKind::Cuboid) => ManifoldRoutine::SphereCuboid { swapped: false },
            (ShapeKind::Cuboid, ShapeKind::Sphere) => ManifoldRoutine::SphereCuboid { swapped: true },
            (ShapeKind::Cuboid, ShapeKind::Cuboid) => ManifoldRoutine::CuboidCuboid,
        }),
{
    match (a, b) {
        (ShapeKind::Sphere, ShapeKind::Sphere) => ManifoldRoutine::SphereSphere,
        (ShapeKind::Sphere, ShapeKind::Cuboid) => ManifoldRoutine::SphereCuboid { swapped: false },
        (ShapeKind::Cuboid, ShapeKind::Sphere) => ManifoldRoutine::SphereCuboid { swapped: true },
        (ShapeKind::Cuboid, ShapeKind::Cuboid) => ManifoldRoutine::CuboidCuboid,
    }
}

/// The two box axes that span face `face` of a box (faces are numbered by the
/// axis of their normal; any number past 1 stands for the third axis).
pub open spec fn face_tangents(face: usize) -> (usize, usize) {
    if face == 0 {
        (1, 2)
    } else if face == 1 {
        (0, 2)
    } else {
        (0, 1)
    }
}

pub fn face_tangent_indices(face: usize) -> (r: (usize, usize))
    ensures
        r == face_tangents(face),
        r.0 < 3 && r.1 < 3 && r.0 < r.1,
{
    match face {
        0 => (1, 2),
        1 => (0, 2),
        _ => (0, 1),
    }
}

/// The fifteen candidate separating axes of two boxes: the three face normals
/// of the first box, the three of the second, then the nine cross products of
/// an edge of the first with an edge of the second.
#[derive(Debug, Clone, Copy, PartialEq, Eq, Structural)]
pub enum SatAxis {
    FaceOfA { face: usize },
    FaceOfB { face: usize },
    EdgeEdge,
}

pub fn classify_sat_axis(k: usize) -> (r: SatAxis)
    requires
        k < 15,
    ensures
        k < 3 ==> (r == SatAxis::FaceOfA { face: k }),
        3 <= k < 6 ==> (r == SatAxis::FaceOfB { face: (k - 3) as usize }),
        6 <= k ==> (r == SatAxis::EdgeEdge),
{
    if k < 3 {
        SatAxis::FaceOfA { face: k }
    } else if k < 6 {
        SatAxis::FaceOfB { face: k - 3 }
    } else {
        SatAxis::EdgeEdge
    }
}

/// The 64-bit FNV offset basis.
pub open spec fn fnv_offset_basis() -> u64 {
    0xcbf29ce484222325
}

/// The 64-bit FNV prime.
pub open spec fn fnv_prime() -> u64 {
    0x00000100000001B3
}

/// One FNV-1a step: exclusive or, then multiplication by the prime modulo
/// 2^64.
pub open spec fn fnv1a_step(h: u64, v: u64) -> u64 {
    (((h ^ v) as nat * fnv_prime() as nat) % 0x1_0000_0000_0000_0000nat) as u64
}

/// The hash of a cell of the quantised lattice: FNV-1a over the bits of the
/// three coordinates.
pub open spec fn cell_hash(x: i32, y: i32, z: i32) -> u64 {
    fnv1a_step(
        fnv1a_step(fnv1a_step(fnv_offset_basis(), x as u32 as u64), y as u32 as u64),
        z as u32 as u64,
    )
}

pub fn fnv1a_u64(h: u64, v: u64) -> (r: u64)
    ensures
        r == fnv1a_step(h, v),
{
    let mut h: u64 = h;
    h = h ^ v;
    h = h.wrapping_mul(0x00000100000001B3);
    h
}

pub fn hash_i32_3(x: i32, y: i32, z: i32) -> (r: u64)
    ensures
        r == cell_hash(x, y, z),
{
    let mut h: u64 = 0xcbf29ce484222325;
    h = fnv1a_u64(h, x as u32 as u64);
    h = fnv1a_u64(h, y as u32 as u64);
    h = fnv1a_u64(h, z as u32 as u64);
    h
}

/// The identity of a contact point that falls in lattice cell `(x, y, z)` of
/// its collider.
pub fn contact_id_of_cell(x: i32, y: i32, z: i32) -> (r: ContactId)
    ensures
        r == ContactId(cell_hash(x, y, z)),
{
    ContactId(hash_i32_3(x, y, z))
}

/// Ordering a pair keeps its two entities and puts the smaller index first.
pub proof fn law_order_pair_sorted(a: EntityId, b: EntityId)
    ensures
        ordered(a, b) == (a, b) || ordered(a, b) == (b, a),
        ordered(a, b).0.index <= ordered(a, b).1.index,
{
}

/// Ordering does not depend on the order of the arguments when the two
/// entities have different indices.
pub proof fn law_order_pair_symmetric(a: EntityId, b: EntityId)
    requires
        a.index != b.index,
    ensures
        ordered(a, b) == ordered(b, a),
{
}

/// The pairs recorded in contact are exactly the ordered forms of the pairs
/// handed over, none twice.
pub proof fn law_recorded_pairs_exact(pairs: Seq<EntityPair>, q: EntityPair)
    ensures
        distinct_ordered(pairs).contains(q) <==> exists|i: int|
            0 <= i < pairs.len() && q == #[trigger] ordered(pairs[i].0, pairs[i].1),
        distinct_ordered(pairs).no_duplicates(),
    decreases pairs.len(),
{
    broadcast use vstd::seq_lib::lemma_seq_contains_after_push;

    if pairs.len() > 0 {
        let init = pairs.drop_last();
        law_recorded_pairs_exact(init, q);
        let last = ordered(pairs.last().0, pairs.last().1);
        assert(pairs[pairs.len() - 1] == pairs.last());
        if exists|i: int| 0 <= i < init.len() && q == #[trigger] ordered(init[i].0, init[i].1) {
            let i = choose|i: int| 0 <= i < init.len() && q == #[trigger] ordered(init[i].0, init[i].1);
            assert(pairs[i] == init[i]);
        }
        if exists|i: int| 0 <= i < pairs.len() && q == #[trigger] ordered(pairs[i].0, pairs[i].1) {
            let i = choose|i: int| 0 <= i < pairs.len() && q == #[trigger] ordered(pairs[i].0, pairs[i].1);
            if i < pairs.len() - 1 {
                assert(init[i] == pairs[i]);
            }
        }
        law_recorded_pairs_exact(init, last);
        let d = distinct_ordered(init);
        if !d.contains(last) {
            assert forall|x: int, y: int| 0 <= x < y < d.push(last).len() implies d.push(last)[x]
                != d.push(last)[y] by {
                if y == d.len() {
                    assert(d[x] == d.push(last)[x]);
                }
            }
        }
    }
}

/// The two axes that span a face are the two axes other than its normal, in
/// increasing order.
pub proof fn law_face_tangents(face: usize)
    requires
        face < 3,
    ensures
        face_tangents(face).0 != face,
        face_tangents(face).1 != face,
        face_tangents(face).0 < face_tangents(face).1 < 3,
{
}

} // verus!
