//! Entity identifiers.

use vstd::prelude::*;

verus! {

/// Number of distinct ids per generation: an entity's bits are
/// `generation * ID_SPAN + id`.
pub const ID_SPAN: u64 = 0x1_0000_0000u64;

/// An entity identifier: a 32-bit slot id together with a 32-bit generation,
/// packed into 64 bits as `generation * 2^32 + id`.
///
/// Live entities always have a non-zero generation; the all-zero id is the
/// null sentinel that the world never hands out.
#[derive(Clone, Copy, Debug, PartialEq, Eq, Structural, Hash)]
pub struct Entity {
    bits: u64,
}

impl View for Entity {
    type V = u64;

    /// An entity is determined by its packed bits.
    closed spec fn view(&self) -> u64 {
        self.bits
    }
}

/// Two entities with the same bits are the same entity.
pub broadcast proof fn lemma_entity_view_injective(a: Entity, b: Entity)
    ensures
        #[trigger] a@ == #[trigger] b@ <==> a == b,
{
}

/// The generation part of a packed entity id.
pub open spec fn spec_generation(bits: u64) -> u64 {
    bits / ID_SPAN
}

/// The slot-id part of a packed entity id.
pub open spec fn spec_slot(bits: u64) -> u64 {
    bits % ID_SPAN
}

impl Entity {
    /// The packed 64-bit form of this entity.
    pub fn to_bits(self) -> (r: u64)
        ensures
            r == self@,
    {
        self.bits
    }

    /// Rebuild an entity from its packed form; `None` when the generation
    /// part is zero, which no live entity has.
    pub fn from_bits(bits: u64) -> (r: Option<Entity>)
        ensures
            r is Some <==> spec_generation(bits) != 0,
            r matches Some(e) ==> e@ == bits,
    {
        if bits >= ID_SPAN {
            Some(Entity { bits })
        } else {
            None
        }
    }

    /// The 32-bit slot id, unique among live entities.
    pub fn id(self) -> (r: u32)
        ensures
            r == spec_slot(self@),
    {
        (self.bits % ID_SPAN) as u32
    }

    /// The generation counter of this entity.
    pub fn generation(self) -> (r: u32)
        ensures
            r == spec_generation(self@),
    {
        (self.bits / ID_SPAN) as u32
    }
}

/// Access to the null entity sentinel.
pub trait EntityExt: Sized {
    /// The null entity: all bits zero, never returned by spawning.
    fn null() -> Self;
}

impl EntityExt for Entity {
    fn null() -> (r: Entity)
        ensures
            r@ == 0,
    {
        Entity { bits: 0 }
    }
}

} // verus!
