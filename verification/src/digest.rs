//! SHA-256, as the `sha2` crate computes it.

use vstd::prelude::*;
use sha2::Digest;
use sha2::Sha256;

verus! {

/// The SHA-256 digest of `data`.
pub uninterp spec fn spec_sha256(data: Seq<u8>) -> Seq<u8>;

/// Calls `sha2::Sha256::digest` on `data`: the 32-byte digest, which depends
/// on `data` alone.
#[verifier::external_body]
pub(crate) fn sha256(data: &[u8]) -> (digest: [u8; 32])
    ensures
        digest@ == spec_sha256(data@),
{
    Sha256::digest(data).into()
}

} // verus!
