//! Plain data shared by the engine: entity handles, body types and flags,
//! collision layers and contact identifiers.
use vstd::prelude::*;

verus! {

/// A handle on an entity of the world: the index of its row and the
/// generation of that row.
#[derive(Debug, Clone, Copy, PartialEq, Eq, Hash, Structural)]
pub struct EntityId {
    pub index: u32,
    pub generation: u32,
}

/// How a body takes part in the simulation.
#[derive(Debug, Clone, Copy, PartialEq, Eq, Hash, Structural)]
pub enum BodyType {
    Static,
    Kinematic,
    Dynamic,
}

/// The bits that name a switch of [`BodyFlags`].
pub open spec fn all_body_flag_bits() -> u32 {
    0x7f
}

/// A set of switches of a rigid body, one bit each; only the seven bits
/// named by the associated constants are ever set.
#[derive(Debug, Clone, Copy, PartialEq, Eq, Hash, Structural)]
pub struct BodyFlags {
    bits: u32,
}

impl BodyFlags {
    pub const ENABLE_GRAVITY: u32 = 1;
    pub const ENABLE_TRANSLATION: u32 = 2;
    pub const ENABLE_ROTATION: u32 = 4;
    pub const ENABLE_COLLISIONS: u32 = 8;
    pub const ENABLE_SOLVER: u32 = 16;
    pub const CCD: u32 = 32;
    pub const SLEEPING_ALLOWED: u32 = 64;
    /// Every switch at once.
    pub const ALL: u32 = 0x7f;

    #[verifier::type_invariant]
    spec fn only_known_bits(self) -> bool {
        self.bits & !0x7fu32 == 0
    }

    /// The bits of the set.
    pub closed spec fn view_bits(self) -> u32 {
        self.bits
    }

    /// Whether every bit of `flag` is set.
    pub open spec fn has(self, flag: u32) -> bool {
        self.view_bits() & flag == flag
    }

    /// The bits of the set.
    pub fn bits(&self) -> (r: u32)
        ensures
            r == self.view_bits(),
            r & !0x7fu32 == 0,
    {
        proof {
            use_type_invariant(self);
        }
        self.bits
    }

    /// The set of the known switches among `bits`; unknown bits are dropped.
    pub fn from_bits_truncate(bits: u32) -> (r: BodyFlags)
        ensures
            r.view_bits() == bits & 0x7fu32,
    {
        let b: u32 = bits & 0x7fu32;
        assert(b & !0x7fu32 == 0) by (bit_vector)
            requires
                b == bits & 0x7fu32,
        ;
        BodyFlags { bits: b }
    }

    /// No switch set.
    pub fn empty() -> (r: BodyFlags)
        ensures
            r.view_bits() == 0,
    {
        assert(0u32 & !0x7fu32 == 0) by (bit_vector);
        BodyFlags { bits: 0 }
    }

    /// Whether every bit of `flag` is set.
    pub fn contains(&self, flag: u32) -> (r: bool)
        ensures
            r == self.has(flag),
    {
        self.bits & flag == flag
    }

    /// Sets the known bits of `flag`.
    pub fn insert(&mut self, flag: u32)
        ensures
            final(self).view_bits() == old(self).view_bits() | (flag & 0x7fu32),
    {
        proof {
            use_type_invariant(&*self);
        }
        let b: u32 = self.bits | (flag & 0x7fu32);
        let ghost old_bits: u32 = self.bits;
        assert(b & !0x7fu32 == 0) by (bit_vector)
            requires
                b == old_bits | (flag & 0x7fu32),
                old_bits & !0x7fu32 == 0,
        ;
        *self = BodyFlags { bits: b };
    }

    /// Clears the bits of `flag`.
    pub fn remove(&mut self, flag: u32)
        ensures
            final(self).view_bits() == old(self).view_bits() & !flag,
    {
        proof {
            use_type_invariant(&*self);
        }
        let b: u32 = self.bits & !flag;
        let ghost old_bits: u32 = self.bits;
        assert(b & !0x7fu32 == 0) by (bit_vector)
            requires
                b == old_bits & !flag,
                old_bits & !0x7fu32 == 0,
        ;
        *self = BodyFlags { bits: b };
    }

    /// The switches set in either operand.
    pub fn union(self, other: BodyFlags) -> (r: BodyFlags)
        ensures
            r.view_bits() == self.view_bits() | other.view_bits(),
    {
        proof {
            use_type_invariant(&self);
            use_type_invariant(&other);
        }
        let x: u32 = self.bits;
        let y: u32 = other.bits;
        let b: u32 = x | y;
        assert(b & !0x7fu32 == 0) by (bit_vector)
            requires
                b == x | y,
                x & !0x7fu32 == 0,
                y & !0x7fu32 == 0,
        ;
        BodyFlags { bits: b }
    }
}

/// The switches of a body that nothing has configured: gravity, translation,
/// rotation, collisions, the solver and sleeping, but not continuous collision
/// detection.
pub open spec fn default_body_flag_bits() -> u32 {
    0x5f
}

impl Default for BodyFlags {
    fn default() -> (r: BodyFlags)
        ensures
            r.view_bits() == default_body_flag_bits(),
    {
        let b: u32 = BodyFlags::ENABLE_GRAVITY | BodyFlags::ENABLE_TRANSLATION
            | BodyFlags::ENABLE_ROTATION | BodyFlags::ENABLE_COLLISIONS | BodyFlags::ENABLE_SOLVER
            | BodyFlags::SLEEPING_ALLOWED;
        assert(b == 0x5f) by (bit_vector)
            requires
                b == 1u32 | 2u32 | 4u32 | 8u32 | 16u32 | 64u32,
        ;
        assert(0x5fu32 & !0x7fu32 == 0) by (bit_vector);
        BodyFlags { bits: b }
    }
}

/// Which layers a collider is on and which layers it accepts contacts from.
#[derive(Debug, Clone, Copy, PartialEq, Eq, Hash, Structural)]
pub struct CollisionLayers {
    pub belongs_to: u32,
    pub collides_with: u32,
}

/// Two colliders may touch when each is on a layer that the other accepts.
pub open spec fn layers_accept(a: CollisionLayers, b: CollisionLayers) -> bool {
    (a.belongs_to & b.collides_with) != 0 && (b.belongs_to & a.collides_with) != 0
}

impl CollisionLayers {
    pub fn can_collide(self, other: CollisionLayers) -> (r: bool)
        ensures
            r == layers_accept(self, other),
    {
        (self.belongs_to & other.collides_with) != 0 && (other.belongs_to & self.collides_with) != 0
    }
}

impl Default for CollisionLayers {
    /// On layer 1 only, accepting every layer.
    fn default() -> (r: CollisionLayers)
        ensures
            r.belongs_to == 1,
            r.collides_with == u32::MAX,
    {
        CollisionLayers { belongs_to: 1, collides_with: u32::MAX }
    }
}

/// The identity of a contact point, stable from frame to frame while the
/// point stays at the same place on its collider.
#[derive(Debug, Clone, Copy, PartialEq, Eq, Hash, Structural)]
pub struct ContactId(pub u64);

/// Collision layers are symmetric: `a` may touch `b` exactly when `b` may
/// touch `a`.
pub proof fn law_can_collide_symmetric(a: CollisionLayers, b: CollisionLayers)
    ensures
        layers_accept(a, b) == layers_accept(b, a),
{
}

/// After a known switch is inserted, the set contains it.
pub proof fn law_insert_then_contains(bits: u32, flag: u32)
    requires
        flag & !0x7fu32 == 0,
    ensures
        (bits | (flag & 0x7fu32)) & flag == flag,
{
    assert((bits | (flag & 0x7fu32)) & flag == flag) by (bit_vector)
        requires
            flag & !0x7fu32 == 0,
    ;
}

/// After a non-empty switch is removed, the set no longer contains it.
pub proof fn law_remove_then_not_contains(bits: u32, flag: u32)
    requires
        flag != 0,
    ensures
        (bits & !flag) & flag != flag,
{
    assert((bits & !flag) & flag != flag) by (bit_vector)
        requires
            flag != 0,
    ;
}

/// A collider on no layer touches nothing, in either order.
pub proof fn law_no_layer_no_contact(a: CollisionLayers, b: CollisionLayers)
    requires
        a.belongs_to == 0,
    ensures
        !layers_accept(a, b),
        !layers_accept(b, a),
{
    assert((0u32 & b.collides_with) == 0) by (bit_vector);
}

/// A collider that accepts every layer touches any collider that is on some
/// layer and accepts one of the first collider's layers.
pub proof fn law_accept_all_layers(a: CollisionLayers, b: CollisionLayers)
    requires
        a.collides_with == u32::MAX,
        b.belongs_to != 0,
        a.belongs_to & b.collides_with != 0,
    ensures
        layers_accept(a, b),
        layers_accept(b, a),
{
    let x = b.belongs_to;
    assert(x & u32::MAX == x) by (bit_vector);
}

} // verus!
