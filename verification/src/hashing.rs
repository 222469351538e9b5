//! 32-byte hashes and keys, their byte order, and the SHA-256 digest of a
//! list of byte strings.

use vstd::prelude::*;

verus! {

/// A 32-byte SHA-256 digest.
#[derive(Clone, Copy, Debug, PartialEq, Eq)]
pub struct Hash32(pub [u8; 32]);

/// A 32-byte public key.
#[derive(Clone, Copy, Debug, PartialEq, Eq)]
pub struct Pubkey(pub [u8; 32]);

impl View for Hash32 {
    type V = Seq<u8>;

    open spec fn view(&self) -> Seq<u8> {
        self.0@
    }
}

impl View for Pubkey {
    type V = Seq<u8>;

    open spec fn view(&self) -> Seq<u8> {
        self.0@
    }
}

/// The SHA-256 digest of the concatenation of `parts`, as
/// `solana_sdk::hash::hashv` computes it.
pub uninterp spec fn hashv_digest(parts: Seq<Seq<u8>>) -> Seq<u8>;

/// Calls `solana_sdk::hash::hashv`, which feeds each slice of `vals` in turn
/// to one SHA-256 hasher and returns the 32-byte digest. The contract claims
/// only that the result is `hashv_digest` of the slices' contents: the same
/// slices give the same digest.
#[verifier::external_body]
pub(crate) fn hashv(vals: &[&[u8]]) -> (h: Hash32)
    ensures
        h@ == hashv_digest(vals@.map_values(|v: &[u8]| v@)),
{
    Hash32(solana_sdk::hash::hashv(vals).to_bytes())
}

impl Hash32 {
    /// The 32 bytes of the digest.
    pub fn to_bytes(self) -> (b: [u8; 32])
        ensures
            b@ == self@,
    {
        self.0
    }
}

impl Pubkey {
    /// The 32 bytes of the key.
    pub fn to_bytes(self) -> (b: [u8; 32])
        ensures
            b@ == self@,
    {
        self.0
    }
}

} // verus!
