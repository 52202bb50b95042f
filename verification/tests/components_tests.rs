use physics_core::components::{BodyFlags, BodyType, CollisionLayers, ContactId, EntityId};

#[test]
fn can_collide_requires_both_directions() {
    let a = CollisionLayers { belongs_to: 1, collides_with: 2 };
    let b = CollisionLayers { belongs_to: 2, collides_with: 1 };
    let c = CollisionLayers { belongs_to: 4, collides_with: 1 };
    assert!(a.can_collide(b));
    assert!(b.can_collide(a));
    // a accepts nothing on layer 4
    assert!(!a.can_collide(c));
    assert!(!c.can_collide(a));
}

#[test]
fn can_collide_is_symmetric_on_samples() {
    let samples = [
        CollisionLayers { belongs_to: 1, collides_with: u32::MAX },
        CollisionLayers { belongs_to: 2, collides_with: 1 },
        CollisionLayers { belongs_to: 3, collides_with: 4 },
        CollisionLayers { belongs_to: 4, collides_with: 2 },
        CollisionLayers { belongs_to: 0, collides_with: u32::MAX },
    ];
    for a in samples.iter() {
        for b in samples.iter() {
            assert_eq!(a.can_collide(*b), b.can_collide(*a));
        }
    }
}

#[test]
fn default_layers_collide_with_each_other() {
    let d = CollisionLayers::default();
    assert_eq!(d.belongs_to, 1);
    assert_eq!(d.collides_with, u32::MAX);
    assert!(d.can_collide(d));
    let other_layer = CollisionLayers { belongs_to: 8, collides_with: 8 };
    assert!(!d.can_collide(other_layer));
}

#[test]
fn default_body_flags() {
    let f = BodyFlags::default();
    assert_eq!(f.bits(), 0x5f);
    assert!(f.contains(BodyFlags::ENABLE_GRAVITY));
    assert!(f.contains(BodyFlags::ENABLE_TRANSLATION));
    assert!(f.contains(BodyFlags::ENABLE_ROTATION));
    assert!(f.contains(BodyFlags::ENABLE_COLLISIONS));
    assert!(f.contains(BodyFlags::ENABLE_SOLVER));
    assert!(f.contains(BodyFlags::SLEEPING_ALLOWED));
    assert!(!f.contains(BodyFlags::CCD));
}

#[test]
fn body_flags_insert_remove_union() {
    let mut f = BodyFlags::empty();
    assert_eq!(f.bits(), 0);
    assert!(!f.contains(BodyFlags::ENABLE_SOLVER));
    f.insert(BodyFlags::ENABLE_SOLVER);
    assert!(f.contains(BodyFlags::ENABLE_SOLVER));
    assert_eq!(f.bits(), 16);
    f.insert(BodyFlags::CCD | BodyFlags::ENABLE_GRAVITY);
    assert_eq!(f.bits(), 16 | 32 | 1);
    f.remove(BodyFlags::CCD);
    assert!(!f.contains(BodyFlags::CCD));
    assert_eq!(f.bits(), 17);
    let g = BodyFlags::from_bits_truncate(BodyFlags::ENABLE_COLLISIONS);
    let u = f.union(g);
    assert_eq!(u.bits(), 17 | 8);
    // the empty flag is contained in every set
    assert!(BodyFlags::empty().contains(0));
}

#[test]
fn from_bits_truncate_drops_unknown_bits() {
    let f = BodyFlags::from_bits_truncate(0xffff_ff80 | BodyFlags::CCD);
    assert_eq!(f.bits(), 32);
    let mut g = BodyFlags::empty();
    g.insert(0x100);
    assert_eq!(g.bits(), 0);
    assert_eq!(BodyFlags::from_bits_truncate(u32::MAX).bits(), BodyFlags::ALL);
}

#[test]
fn body_flags_combination_like_the_player() {
    let f = BodyFlags::from_bits_truncate(
        BodyFlags::ENABLE_GRAVITY
            | BodyFlags::ENABLE_TRANSLATION
            | BodyFlags::ENABLE_COLLISIONS
            | BodyFlags::ENABLE_SOLVER
            | BodyFlags::SLEEPING_ALLOWED,
    );
    assert!(!f.contains(BodyFlags::ENABLE_ROTATION));
    assert!(f.contains(BodyFlags::ENABLE_GRAVITY | BodyFlags::ENABLE_SOLVER));
    assert!(!f.contains(BodyFlags::ENABLE_GRAVITY | BodyFlags::ENABLE_ROTATION));
}

#[test]
fn plain_types_compare_by_value() {
    let a = EntityId { index: 3, generation: 1 };
    let b = EntityId { index: 3, generation: 2 };
    assert_ne!(a, b);
    assert_eq!(a, EntityId { index: 3, generation: 1 });
    assert_eq!(ContactId(7), ContactId(7));
    assert_ne!(BodyType::Static, BodyType::Dynamic);
}
