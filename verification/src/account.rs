//! Account identities and fixed-size byte values shared by both contracts.

use vstd::prelude::*;

verus! {

/// Number of bytes in the textual (StrKey) form of a Stellar account or
/// contract address, such as `GA...` or `CA...`.
pub const STRKEY_LEN: usize = 56;

/// The identity of a Stellar account or contract, held as the bytes of its
/// StrKey text. Two identities name the same party exactly when their bytes
/// are equal.
#[derive(Clone, Copy, Debug, PartialEq, Eq)]
pub struct AccountId {
    pub strkey: [u8; 56],
}

impl AccountId {
    /// Builds an identity from the bytes of its StrKey text.
    pub fn from_strkey(strkey: [u8; 56]) -> (r: AccountId)
        ensures
            r.strkey == strkey,
    {
        AccountId { strkey }
    }

    /// Returns whether `self` and `other` name the same party.
    pub fn same_as(&self, other: &AccountId) -> (r: bool)
        ensures
            r == (*self == *other),
    {
        let mut i: usize = 0;
        while i < STRKEY_LEN
            invariant
                0 <= i <= STRKEY_LEN,
                forall|j: int| 0 <= j < i ==> self.strkey[j] == other.strkey[j],
            decreases STRKEY_LEN - i,
        {
            if self.strkey[i] != other.strkey[i] {
                return false;
            }
            i = i + 1;
        }
        proof {
            broadcast use vstd::array::group_array_axioms;

            assert(self.strkey =~= other.strkey);
        }
        true
    }
}

/// Returns whether two 32-byte values (hashes, transaction ids, keys) are equal.
pub fn same_bytes32(a: &[u8; 32], b: &[u8; 32]) -> (r: bool)
    ensures
        r == (*a == *b),
{
    let mut i: usize = 0;
    while i < 32
        invariant
            0 <= i <= 32,
            forall|j: int| 0 <= j < i ==> a[j] == b[j],
        decreases 32 - i,
    {
        if a[i] != b[i] {
            return false;
        }
        i = i + 1;
    }
    proof {
        broadcast use vstd::array::group_array_axioms;

        assert(*a =~= *b);
    }
    true
}

} // verus!
