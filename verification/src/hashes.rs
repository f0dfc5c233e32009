//! SHA-256, as computed by the `bitcoin` crate's hashing module.

use vstd::prelude::*;

verus! {

/// The SHA-256 digest of a byte string.
pub uninterp spec fn sha256(data: Seq<u8>) -> Seq<u8>;

/// Hashes `data` with `bitcoin::hashes::sha256::Hash::hash`.
///
/// Trusted: the 32 bytes returned are the SHA-256 digest of `data`, which
/// depends on the bytes of `data` alone.
#[verifier::external_body]
pub(crate) fn sha256_digest(data: &[u8]) -> (digest: [u8; 32])
    ensures
        digest@ == sha256(data@),
{
    let hash: bitcoin::hashes::sha256::Hash = bitcoin::hashes::Hash::hash(data);
    bitcoin::hashes::Hash::to_byte_array(hash)
}

/// The SHA-256 digest of `data`.
pub fn sha256_of(data: &[u8]) -> (digest: [u8; 32])
    ensures
        digest@ == sha256(data@),
{
    sha256_digest(data)
}

} // verus!
