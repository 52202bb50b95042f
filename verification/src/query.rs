//! Scene queries: which colliders a sphere cast considers.
use vstd::prelude::*;

use crate::components::{layers_accept, CollisionLayers, EntityId};

verus! {

/// A sphere cast considers a collider unless its entity is to be ignored or,
/// when the cast has layers, the layers do not accept each other.
pub open spec fn cast_considers(
    entity: EntityId,
    ignore: Seq<EntityId>,
    layers: Option<CollisionLayers>,
    collider_layers: CollisionLayers,
) -> bool {
    !ignore.contains(entity) && match layers {
        Some(l) => layers_accept(l, collider_layers),
        None => true,
    }
}

pub fn spherecast_candidate(
    entity: EntityId,
    ignore: &[EntityId],
    layers: Option<CollisionLayers>,
    collider_layers: CollisionLayers,
) -> (r: bool)
    ensures
        r == cast_considers(entity, ignore@, layers, collider_layers),
{
    let n: usize = ignore.len();
    let mut i: usize = 0;
    while i < n
        invariant
            n == ignore@.len(),
            i <= n,
            forall|k: int| 0 <= k < i ==> ignore@[k] != entity,
        decreases n - i,
    {
        if ignore[i] == entity {
            return false;
        }
        i = i + 1;
    }
    match layers {
        Some(l) => l.can_collide(collider_layers),
        None => true,
    }
}

/// A sphere cast skips every entity of the ignore list, wherever it stands in
/// the list; an entity not in the list is considered when the cast has no
/// layers, and otherwise exactly when the layers accept each other both ways.
pub proof fn law_cast_ignores_listed(
    entity: EntityId,
    ignore: Seq<EntityId>,
    layers: Option<CollisionLayers>,
    collider_layers: CollisionLayers,
    k: int,
)
    ensures
        0 <= k < ignore.len() && ignore[k] == entity ==> !cast_considers(
            entity,
            ignore,
            layers,
            collider_layers,
        ),
        (forall|i: int| 0 <= i < ignore.len() ==> ignore[i] != entity) ==> (cast_considers(
            entity,
            ignore,
            layers,
            collider_layers,
        ) == match layers {
            Some(l) => (l.belongs_to & collider_layers.collides_with) != 0
                && (collider_layers.belongs_to & l.collides_with) != 0,
            None => true,
        }),
{
    if 0 <= k < ignore.len() && ignore[k] == entity {
        assert(ignore.contains(entity));
    }
}

} // verus!
