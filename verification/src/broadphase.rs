//! The broad phase: which pairs of colliders the narrow phase looks at.
use vstd::prelude::*;

use crate::components::{layers_accept, CollisionLayers, EntityId};
use crate::pair_set::EntityPair;

verus! {

/// What the broad phase reads of one collider. Whether its box overlaps the
/// box of another collider is handed over separately.
#[derive(Debug, Clone, Copy, PartialEq, Eq, Structural)]
pub struct BroadphaseItem {
    pub entity: EntityId,
    pub layers: CollisionLayers,
    pub is_sensor: bool,
}

/// The candidate pairs of the current step.
pub struct BroadphasePairs {
    pub pairs: Vec<EntityPair>,
}

impl BroadphasePairs {
    pub fn new() -> (r: BroadphasePairs)
        ensures
            r.pairs@ == Seq::<EntityPair>::empty(),
    {
        BroadphasePairs { pairs: Vec::new() }
    }
}

/// `overlaps[i][j]` tells whether the boxes of items `i` and `j` overlap.
pub open spec fn overlap_table_fits(n: int, overlaps: Seq<Vec<bool>>) -> bool {
    &&& overlaps.len() == n
    &&& forall|i: int| 0 <= i < n ==> (#[trigger] overlaps[i])@.len() == n
}

/// Items `i` and `j` become a pair when their layers accept each other and
/// their boxes overlap.
pub open spec fn pair_accepted(
    items: Seq<BroadphaseItem>,
    overlaps: Seq<Vec<bool>>,
    i: int,
    j: int,
) -> bool {
    layers_accept(items[i].layers, items[j].layers) && overlaps[i]@[j]
}

/// The pairs `(i, k)` with `i < k < j` that are accepted, by increasing `k`.
pub open spec fn row_pairs(
    items: Seq<BroadphaseItem>,
    overlaps: Seq<Vec<bool>>,
    i: int,
    j: int,
) -> Seq<EntityPair>
    decreases j - i,
{
    if j <= i + 1 {
        Seq::empty()
    } else {
        let before = row_pairs(items, overlaps, i, j - 1);
        if pair_accepted(items, overlaps, i, j - 1) {
            before.push((items[i].entity, items[j - 1].entity))
        } else {
            before
        }
    }
}

/// The accepted pairs whose first item comes before item `i`, row by row.
pub open spec fn pairs_before(items: Seq<BroadphaseItem>, overlaps: Seq<Vec<bool>>, i: int) -> Seq<
    EntityPair,
>
    decreases i,
{
    if i <= 0 {
        Seq::empty()
    } else {
        pairs_before(items, overlaps, i - 1) + row_pairs(items, overlaps, i - 1, items.len() as int)
    }
}

/// Replaces the candidate pairs by every pair `(items[i].entity,
/// items[j].entity)` with `i < j` whose layers accept each other and whose
/// boxes overlap, ordered by `i`, then by `j`.
pub fn broadphase_build_pairs(
    pairs: &mut BroadphasePairs,
    items: &Vec<BroadphaseItem>,
    overlaps: &Vec<Vec<bool>>,
)
    requires
        overlap_table_fits(items@.len() as int, overlaps@),
    ensures
        final(pairs).pairs@ == pairs_before(items@, overlaps@, items@.len() as int),
{
    pairs.pairs.clear();
    let len: usize = items.len();
    let mut i: usize = 0;
    while i < len
        invariant
            len == items@.len(),
            overlap_table_fits(len as int, overlaps@),
            i <= len,
            pairs.pairs@ == pairs_before(items@, overlaps@, i as int),
        decreases len - i,
    {
        let a: BroadphaseItem = items[i];
        let mut j: usize = i + 1;
        while j < len
            invariant
                len == items@.len(),
                overlap_table_fits(len as int, overlaps@),
                i < len,
                i + 1 <= j <= len,
                a == items@[i as int],
                pairs.pairs@ == pairs_before(items@, overlaps@, i as int) + row_pairs(
                    items@,
                    overlaps@,
                    i as int,
                    j as int,
                ),
            decreases len - j,
        {
            let b: BroadphaseItem = items[j];
            let ghost before = pairs.pairs@;
            if a.layers.can_collide(b.layers) && overlaps[i][j] {
                pairs.pairs.push((a.entity, b.entity));
            }
            j = j + 1;
            assert(pairs.pairs@ =~= pairs_before(items@, overlaps@, i as int) + row_pairs(
                items@,
                overlaps@,
                i as int,
                j as int,
            ));
        }
        i = i + 1;
    }
}

/// `p` is the pair of items `i` and `j`, in that order, and they are accepted.
pub open spec fn is_accepted_pair(
    items: Seq<BroadphaseItem>,
    overlaps: Seq<Vec<bool>>,
    i: int,
    j: int,
    p: EntityPair,
) -> bool {
    pair_accepted(items, overlaps, i, j) && p == (items[i].entity, items[j].entity)
}

proof fn lemma_row_pairs_contains(
    items: Seq<BroadphaseItem>,
    overlaps: Seq<Vec<bool>>,
    i: int,
    j: int,
    p: EntityPair,
)
    ensures
        row_pairs(items, overlaps, i, j).contains(p) <==> exists|k: int|
            i < k < j && #[trigger] is_accepted_pair(items, overlaps, i, k, p),
    decreases j - i,
{
    broadcast use vstd::seq_lib::lemma_seq_contains_after_push;

    if j <= i + 1 {
    } else {
        lemma_row_pairs_contains(items, overlaps, i, j - 1, p);
        if is_accepted_pair(items, overlaps, i, j - 1, p) {
            assert(row_pairs(items, overlaps, i, j).contains(p));
        }
    }
}

proof fn lemma_pairs_before_contains(
    items: Seq<BroadphaseItem>,
    overlaps: Seq<Vec<bool>>,
    i: int,
    p: EntityPair,
)
    ensures
        pairs_before(items, overlaps, i).contains(p) <==> exists|a: int, b: int|
            0 <= a < i && a < b < items.len() && #[trigger] is_accepted_pair(
                items,
                overlaps,
                a,
                b,
                p,
            ),
    decreases i,
{
    broadcast use vstd::seq_lib::lemma_seq_concat_contains_all_elements;

    if i <= 0 {
    } else {
        let n = items.len() as int;
        lemma_pairs_before_contains(items, overlaps, i - 1, p);
        lemma_row_pairs_contains(items, overlaps, i - 1, n, p);
        if exists|a: int, b: int|
            0 <= a < i && a < b < n && #[trigger] is_accepted_pair(items, overlaps, a, b, p) {
            let (a, b) = choose|a: int, b: int|
                0 <= a < i && a < b < n && #[trigger] is_accepted_pair(items, overlaps, a, b, p);
            if a == i - 1 {
                assert(row_pairs(items, overlaps, i - 1, n).contains(p));
            } else {
                assert(pairs_before(items, overlaps, i - 1).contains(p));
            }
        }
    }
}

/// The broad phase is exact: a pair is a candidate exactly when it is made of
/// two items, the first before the second, whose layers accept each other and
/// whose boxes overlap.
pub proof fn law_broadphase_pairs_exact(
    items: Seq<BroadphaseItem>,
    overlaps: Seq<Vec<bool>>,
    p: EntityPair,
)
    ensures
        pairs_before(items, overlaps, items.len() as int).contains(p) <==> exists|i: int, j: int|
            0 <= i < j < items.len() && #[trigger] is_accepted_pair(items, overlaps, i, j, p),
{
    lemma_pairs_before_contains(items, overlaps, items.len() as int, p);
}

/// Whether the layers of items `i` and `j` accept each other, bit by bit.
pub open spec fn layer_bits_meet(items: Seq<BroadphaseItem>, i: int, j: int) -> bool {
    (items[i].layers.belongs_to & items[j].layers.collides_with) != 0
        && (items[j].layers.belongs_to & items[i].layers.collides_with) != 0
}

/// A pair is a candidate exactly when it is the pair of two items `i < j`
/// whose layers accept each other both ways and whose boxes overlap; the
/// sensor flag plays no part.
pub proof fn law_broadphase_candidates(
    items: Seq<BroadphaseItem>,
    overlaps: Seq<Vec<bool>>,
    p: EntityPair,
)
    ensures
        pairs_before(items, overlaps, items.len() as int).contains(p) <==> exists|i: int, j: int|
            0 <= i < j < items.len() && #[trigger] layer_bits_meet(items, i, j) && overlaps[i]@[j]
                && p == (items[i].entity, items[j].entity),
{
    lemma_pairs_before_contains(items, overlaps, items.len() as int, p);
    if exists|i: int, j: int|
        0 <= i < j < items.len() && #[trigger] layer_bits_meet(items, i, j) && overlaps[i]@[j] && p
            == (items[i].entity, items[j].entity) {
        let (i, j) = choose|i: int, j: int|
            0 <= i < j < items.len() && #[trigger] layer_bits_meet(items, i, j) && overlaps[i]@[j]
                && p == (items[i].entity, items[j].entity);
        assert(is_accepted_pair(items, overlaps, i, j, p));
    }
    if pairs_before(items, overlaps, items.len() as int).contains(p) {
        let (i, j) = choose|i: int, j: int|
            0 <= i < items.len() && i < j < items.len() && #[trigger] is_accepted_pair(
                items,
                overlaps,
                i,
                j,
                p,
            );
        assert(layer_bits_meet(items, i, j));
    }
}

/// With distinct entities, items `i < j` form a candidate pair exactly when
/// their layers accept each other both ways and their boxes overlap, whether
/// or not either is a sensor.
pub proof fn law_broadphase_pair_of_items(
    items: Seq<BroadphaseItem>,
    overlaps: Seq<Vec<bool>>,
    i: int,
    j: int,
)
    requires
        0 <= i < j < items.len(),
        forall|a: int, b: int|
            0 <= a < items.len() && 0 <= b < items.len() && a != b ==> items[a].entity
                != items[b].entity,
    ensures
        pairs_before(items, overlaps, items.len() as int).contains(
            (items[i].entity, items[j].entity),
        ) <==> ((items[i].layers.belongs_to & items[j].layers.collides_with) != 0
            && (items[j].layers.belongs_to & items[i].layers.collides_with) != 0
            && overlaps[i]@[j]),
{
    let p = (items[i].entity, items[j].entity);
    law_broadphase_candidates(items, overlaps, p);
    if layer_bits_meet(items, i, j) && overlaps[i]@[j] {
        assert(layer_bits_meet(items, i, j) && overlaps[i]@[j] && p == (
            items[i].entity,
            items[j].entity,
        ));
    }
    if pairs_before(items, overlaps, items.len() as int).contains(p) {
        let (a, b) = choose|a: int, b: int|
            0 <= a < b < items.len() && #[trigger] layer_bits_meet(items, a, b) && overlaps[a]@[b]
                && p == (items[a].entity, items[b].entity);
        assert(a == i);
        assert(b == j);
    }
}

} // verus!
