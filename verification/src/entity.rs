//! Entity handles.

use vstd::prelude::*;

verus! {

/// An opaque handle to one entity of the host's entity store.
///
/// Two handles name the same entity exactly when their bits are equal.
#[derive(Clone, Copy, Debug, PartialEq, Eq, Structural, Hash)]
pub struct Entity {
    pub bits: u64,
}

impl Entity {
    /// The handle with the given bits.
    pub fn from_bits(bits: u64) -> (entity: Entity)
        ensures
            entity.bits == bits,
    {
        Entity { bits }
    }

    /// The bits of this handle.
    pub fn to_bits(self) -> (bits: u64)
        ensures
            bits == self.bits,
    {
        self.bits
    }
}

} // verus!
