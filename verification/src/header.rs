use vstd::prelude::*;

verus! {

/// The slot number of a block.
pub type Slot = u64;

/// A 32-byte identifier (of a block header, a blob or a transaction).
#[derive(Clone, Copy, Debug, Hash)]
pub struct Id32 {
    pub bytes: [u8; 32],
}

/// The identifier of a block header.
pub type HeaderId = Id32;

/// The identifier of a blob.
pub type BlobId = Id32;

/// The hash of a transaction.
pub type TxHash = Id32;

impl Id32 {
    /// Wraps 32 bytes as an identifier.
    pub fn from_bytes(bytes: [u8; 32]) -> (id: Id32)
        ensures
            id.bytes == bytes,
    {
        Id32 { bytes }
    }

    /// Whether all 32 bytes are zero (the parent named by a genesis block).
    pub open spec fn is_zero(&self) -> bool {
        forall|i: int| 0 <= i < 32 ==> self.bytes@[i] == 0
    }

    /// Whether all 32 bytes are zero.
    pub fn is_zero_id(&self) -> (b: bool)
        ensures
            b == self.is_zero(),
    {
        let mut i: usize = 0;
        while i < 32
            invariant
                0 <= i <= 32,
                forall|j: int| 0 <= j < i ==> self.bytes@[j] == 0,
            decreases 32 - i,
        {
            if self.bytes[i] != 0 {
                return false;
            }
            i = i + 1;
        }
        true
    }

    /// The identifier whose 32 bytes all equal `b`.
    pub fn repeat(b: u8) -> (id: Id32)
        ensures
            forall|i: int| 0 <= i < 32 ==> id.bytes@[i] == b,
    {
        Id32 { bytes: [b; 32] }
    }
}

impl PartialEq for Id32 {
    fn eq(&self, other: &Self) -> (r: bool) {
        let mut i: usize = 0;
        while i < 32
            invariant
                0 <= i <= 32,
                forall|j: int| 0 <= j < i ==> self.bytes@[j] == other.bytes@[j],
            decreases 32 - i,
        {
            if self.bytes[i] != other.bytes[i] {
                return false;
            }
            i = i + 1;
        }
        proof {
            broadcast use vstd::array::axiom_array_ext_equal;
            assert(self.bytes =~= other.bytes);
        }
        true
    }
}

impl Eq for Id32 {}

impl vstd::std_specs::cmp::PartialEqSpecImpl for Id32 {
    open spec fn obeys_eq_spec() -> bool {
        true
    }

    open spec fn eq_spec(&self, other: &Id32) -> bool {
        *self == *other
    }
}

} // verus!
