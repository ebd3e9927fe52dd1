//! Shared primitive types.
use vstd::prelude::*;

verus! {

/// A 32-byte value: claims, identifiers, domain ids and assertion ids.
pub type Bytes32 = [u8; 32];

/// A 32-byte digest: request ids and vote commitments.
pub type CryptoHash = [u8; 32];

/// An account name on the host chain.
pub type AccountId = String;

/// Compares two 32-byte values.
pub fn bytes32_eq(a: &[u8; 32], b: &[u8; 32]) -> (r: bool)
    ensures
        r == (a@ == b@),
{
    let mut i: usize = 0;
    while i < 32
        invariant
            0 <= i <= 32,
            a@.len() == 32,
            b@.len() == 32,
            forall|j: int| 0 <= j < i ==> a@[j] == b@[j],
        decreases 32 - i,
    {
        if a[i] != b[i] {
            return false;
        }
        i = i + 1;
    }
    assert(a@ =~= b@);
    true
}

/// The characters of an optional account name.
pub open spec fn opt_account_view(a: Option<AccountId>) -> Option<Seq<char>> {
    match a {
        Some(x) => Some(x@),
        None => None,
    }
}

} // verus!
