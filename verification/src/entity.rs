use vstd::prelude::*;

verus! {

/// Opaque, stable handle of an entity in the component store.
///
/// Only equality of handles carries meaning; the number inside is whatever
/// the store chose.
#[derive(Clone, Copy, Debug, PartialEq, Eq, Structural, Hash)]
pub struct EntityId(pub u64);

impl EntityId {
    /// The handle with the given raw bits.
    pub fn from_bits(bits: u64) -> (id: EntityId)
        ensures
            id == EntityId(bits),
    {
        EntityId(bits)
    }

    /// The raw bits of the handle.
    pub fn to_bits(&self) -> (bits: u64)
        ensures
            bits == self.0,
    {
        self.0
    }
}

} // verus!
