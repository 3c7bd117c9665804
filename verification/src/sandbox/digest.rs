//! The one hash the sandbox identifies its plans and policies by.

use vstd::prelude::*;

verus! {

/// The SHA-256 digest of `bytes`.
pub uninterp spec fn sha256_of(bytes: Seq<u8>) -> Seq<u8>;

/// `Sha256::digest` from the `sha2` crate: the SHA-256 hash of `bytes`,
/// named by [`sha256_of`]; nothing else about the hash is claimed.
#[verifier::external_body]
pub(crate) fn sha256(bytes: &[u8]) -> (digest: [u8; 32])
    ensures
        digest@ == sha256_of(bytes@),
{
    <sha2::Sha256 as sha2::Digest>::digest(bytes).into()
}

} // verus!
