//! Caller identities: opaque 32-byte identifiers supplied, already
//! authenticated, by the host environment.

use vstd::prelude::*;

verus! {

/// An opaque fixed-width caller identifier. It is only ever compared for
/// equality, used as a key of the cooldown store, and copied verbatim into
/// the encoded transfer instruction.
#[derive(Clone, Copy, Debug)]
pub struct CallerId {
    bytes: [u8; 32],
}

impl View for CallerId {
    type V = Seq<u8>;

    closed spec fn view(&self) -> Seq<u8> {
        self.bytes@
    }
}

impl CallerId {
    pub fn new(bytes: [u8; 32]) -> (r: CallerId)
        ensures
            r@ == bytes@,
    {
        CallerId { bytes }
    }

    /// The raw identifier, exactly as the host supplied it.
    pub fn bytes(&self) -> (r: &[u8; 32])
        ensures
            r@ == self@,
    {
        &self.bytes
    }

    /// Identifiers are equal exactly when all their bytes are.
    pub fn equals(&self, other: &CallerId) -> (r: bool)
        ensures
            r == (self@ == other@),
    {
        let mut i: usize = 0;
        while i < 32
            invariant
                i <= 32,
                forall|j: int| 0 <= j < i ==> self.bytes@[j] == other.bytes@[j],
            decreases 32 - i,
        {
            if self.bytes[i] != other.bytes[i] {
                return false;
            }
            i += 1;
        }
        proof {
            assert(self@ =~= other@);
        }
        true
    }
}

} // verus!
