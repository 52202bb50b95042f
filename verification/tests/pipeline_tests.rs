use physics_core::broadphase::{broadphase_build_pairs, BroadphaseItem, BroadphasePairs};
use physics_core::components::{CollisionLayers, EntityId};
use physics_core::events::{emit_contact_events, entity_is_sensor, CollisionEvent, TriggerEvent};
use physics_core::narrowphase::{
    classify_sat_axis, contact_id_of_cell, face_tangent_indices, fnv1a_u64, hash_i32_3, manifold_routine,
    narrowphase_record_pairs, order_pair, CollisionCache, ManifoldRoutine, SatAxis, ShapeKind,
};
use physics_core::pair_set::{pair_eq, PairSet};

fn e(index: u32) -> EntityId {
    EntityId { index, generation: 0 }
}

fn item(index: u32, layers: CollisionLayers) -> BroadphaseItem {
    BroadphaseItem { entity: e(index), layers, is_sensor: false }
}

#[test]
fn broadphase_pairs_follow_overlaps_and_layers() {
    let all = CollisionLayers::default();
    let lonely = CollisionLayers { belongs_to: 2, collides_with: 2 };
    let items = vec![item(0, all), item(1, all), item(2, lonely), item(3, all)];
    let t = true;
    let f = false;
    // every pair overlaps
    let overlaps = vec![vec![t, t, t, t], vec![t, t, t, t], vec![t, t, t, t], vec![t, t, t, t]];
    let mut pairs = BroadphasePairs::new();
    pairs.pairs.push((e(9), e(9)));
    broadphase_build_pairs(&mut pairs, &items, &overlaps);
    assert_eq!(pairs.pairs, vec![(e(0), e(1)), (e(0), e(3)), (e(1), e(3))]);

    let overlaps = vec![vec![f, t, f, f], vec![t, f, f, t], vec![f, f, f, f], vec![f, t, f, f]];
    broadphase_build_pairs(&mut pairs, &items, &overlaps);
    assert_eq!(pairs.pairs, vec![(e(0), e(1)), (e(1), e(3))]);
}

#[test]
fn broadphase_of_nothing_is_empty() {
    let mut pairs = BroadphasePairs::new();
    broadphase_build_pairs(&mut pairs, &Vec::new(), &Vec::new());
    assert!(pairs.pairs.is_empty());
}

#[test]
fn order_pair_puts_smaller_index_first() {
    let a = e(5);
    let b = e(2);
    assert_eq!(order_pair(a, b), (b, a));
    assert_eq!(order_pair(b, a), (b, a));
    // equal indices: the second comes first
    let c = EntityId { index: 5, generation: 1 };
    assert_eq!(order_pair(a, c), (c, a));
    assert_eq!(order_pair(c, a), (a, c));
}

#[test]
fn recorded_pairs_are_ordered_and_distinct() {
    let mut cache = CollisionCache::new();
    cache.previous.insert((e(7), e(8)));
    narrowphase_record_pairs(&mut cache, &vec![(e(3), e(1)), (e(1), e(3)), (e(0), e(4))]);
    assert_eq!(cache.current.len(), 2);
    assert_eq!(cache.current.get(0), (e(1), e(3)));
    assert_eq!(cache.current.get(1), (e(0), e(4)));
    assert!(cache.previous.contains(&(e(7), e(8))));
    // recording again replaces the current pairs
    narrowphase_record_pairs(&mut cache, &vec![(e(2), e(0))]);
    assert_eq!(cache.current.len(), 1);
    assert_eq!(cache.current.get(0), (e(0), e(2)));
}

#[test]
fn pair_set_keeps_first_occurrence() {
    let mut s = PairSet::new();
    assert!(s.insert((e(1), e(2))));
    assert!(s.insert((e(0), e(2))));
    assert!(!s.insert((e(1), e(2))));
    assert_eq!(s.len(), 2);
    assert!(s.contains(&(e(0), e(2))));
    assert!(!s.contains(&(e(2), e(0))));
    let d = s.duplicate();
    assert_eq!(d.len(), 2);
    assert_eq!(d.get(1), (e(0), e(2)));
    s.clear();
    assert_eq!(s.len(), 0);
    assert_eq!(d.len(), 2);
}

#[test]
fn contact_events_report_starts_and_ends() {
    let mut cache = CollisionCache::new();
    // entity 9 is a sensor
    let colliders = vec![(e(0), false), (e(1), false), (e(2), false), (e(9), true)];

    narrowphase_record_pairs(&mut cache, &vec![(e(1), e(0)), (e(9), e(2))]);
    let ev = emit_contact_events(&mut cache, &colliders);
    assert_eq!(ev.collisions, vec![CollisionEvent { a: e(0), b: e(1), started: true }]);
    assert_eq!(ev.triggers, vec![TriggerEvent { sensor: e(2), other: e(9), started: true }]);

    // nothing changed: nothing reported
    let ev = emit_contact_events(&mut cache, &colliders);
    assert!(ev.collisions.is_empty());
    assert!(ev.triggers.is_empty());

    // the sensor pair ends, a new solid pair starts
    narrowphase_record_pairs(&mut cache, &vec![(e(0), e(1)), (e(2), e(1))]);
    let ev = emit_contact_events(&mut cache, &colliders);
    assert_eq!(ev.collisions, vec![CollisionEvent { a: e(1), b: e(2), started: true }]);
    assert_eq!(ev.triggers, vec![TriggerEvent { sensor: e(2), other: e(9), started: false }]);
    assert_eq!(cache.previous.len(), 2);

    // everything ends
    narrowphase_record_pairs(&mut cache, &Vec::new());
    let ev = emit_contact_events(&mut cache, &colliders);
    assert_eq!(
        ev.collisions,
        vec![
            CollisionEvent { a: e(0), b: e(1), started: false },
            CollisionEvent { a: e(1), b: e(2), started: false },
        ]
    );
    assert!(ev.triggers.is_empty());
    assert_eq!(cache.previous.len(), 0);
}

#[test]
fn sensor_lookup_uses_first_entry_and_defaults_to_solid() {
    let colliders = vec![(e(1), true), (e(1), false), (e(2), false)];
    assert!(entity_is_sensor(&colliders, e(1)));
    assert!(!entity_is_sensor(&colliders, e(2)));
    assert!(!entity_is_sensor(&colliders, e(3)));
    // an entity without a collider entry never makes a trigger
    let mut cache = CollisionCache::new();
    narrowphase_record_pairs(&mut cache, &vec![(e(3), e(4))]);
    let ev = emit_contact_events(&mut cache, &colliders);
    assert_eq!(ev.collisions, vec![CollisionEvent { a: e(3), b: e(4), started: true }]);
}

#[test]
fn fnv_and_cell_hash_values() {
    assert_eq!(fnv1a_u64(0, 1), 1099511628211);
    assert_eq!(fnv1a_u64(0xcbf29ce484222325, 0), 12638153115695167455);
    assert_eq!(hash_i32_3(0, 0, 0), 15658191375538532279);
    assert_eq!(hash_i32_3(1, -1, 2), 3345330547446902577);
    assert_eq!(hash_i32_3(-5, 7, 100), 7965658461146031449);
    assert_eq!(contact_id_of_cell(1, -1, 2).0, 3345330547446902577);
    assert_ne!(hash_i32_3(1, 2, 3), hash_i32_3(3, 2, 1));
}

#[test]
fn manifold_routines_by_shape() {
    assert_eq!(manifold_routine(ShapeKind::Sphere, ShapeKind::Sphere), ManifoldRoutine::SphereSphere);
    assert_eq!(
        manifold_routine(ShapeKind::Sphere, ShapeKind::Cuboid),
        ManifoldRoutine::SphereCuboid { swapped: false }
    );
    assert_eq!(
        manifold_routine(ShapeKind::Cuboid, ShapeKind::Sphere),
        ManifoldRoutine::SphereCuboid { swapped: true }
    );
    assert_eq!(manifold_routine(ShapeKind::Cuboid, ShapeKind::Cuboid), ManifoldRoutine::CuboidCuboid);
}

#[test]
fn sat_axes_are_classified() {
    assert_eq!(classify_sat_axis(0), SatAxis::FaceOfA { face: 0 });
    assert_eq!(classify_sat_axis(2), SatAxis::FaceOfA { face: 2 });
    assert_eq!(classify_sat_axis(3), SatAxis::FaceOfB { face: 0 });
    assert_eq!(classify_sat_axis(5), SatAxis::FaceOfB { face: 2 });
    assert_eq!(classify_sat_axis(6), SatAxis::EdgeEdge);
    assert_eq!(classify_sat_axis(14), SatAxis::EdgeEdge);
}

#[test]
fn faces_are_spanned_by_the_other_two_axes() {
    assert_eq!(face_tangent_indices(0), (1, 2));
    assert_eq!(face_tangent_indices(1), (0, 2));
    assert_eq!(face_tangent_indices(2), (0, 1));
}

#[test]
fn pairs_compare_both_entities() {
    assert!(pair_eq(&(e(1), e(2)), &(e(1), e(2))));
    assert!(!pair_eq(&(e(1), e(2)), &(e(2), e(1))));
    assert!(!pair_eq(&(e(1), e(2)), &(e(1), EntityId { index: 2, generation: 5 })));
}
