//! Plain value types shared by the key stores and the provider.

use vstd::prelude::*;

verus! {

broadcast use vstd::array::group_array_axioms;

/// A 20-byte account identifier; equality is byte-wise.
#[derive(Clone, Copy, Debug, PartialEq, Eq, Hash, PartialOrd, Ord)]
pub struct Address(pub [u8; 20]);

/// A 32-byte secp256k1 secret key.
#[derive(Clone, Copy, Debug, PartialEq, Eq)]
pub struct Secret(pub [u8; 32]);

/// A 64-byte uncompressed secp256k1 public key (without the leading tag).
#[derive(Clone, Copy, Debug, PartialEq, Eq)]
pub struct Public(pub [u8; 64]);

/// A 32-byte message hash to be signed.
#[derive(Clone, Copy, Debug, PartialEq, Eq)]
pub struct Message(pub [u8; 32]);

/// A 65-byte recoverable signature: `r`, `s`, then the recovery id.
#[derive(Clone, Copy, Debug, PartialEq, Eq)]
pub struct Signature(pub [u8; 65]);

impl Address {
    /// Byte-wise comparison of two addresses.
    pub fn same_as(&self, other: &Address) -> (r: bool)
        ensures
            r == (*self == *other),
    {
        let mut i: usize = 0;
        while i < 20
            invariant
                0 <= i <= 20,
                forall|j: int| 0 <= j < i ==> self.0[j] == other.0[j],
            decreases 20 - i,
        {
            if self.0[i] != other.0[i] {
                return false;
            }
            i += 1;
        }
        assert(self.0 =~= other.0);
        true
    }
}

} // verus!
