//! The digest that authenticates a backup: SHA-256.
use sha2::Digest;
use vstd::prelude::*;

verus! {

/// The length of a digest in bytes.
pub const DIGEST_LEN: usize = 32;

/// The SHA-256 digest of a byte string. Nothing is stated of its value but
/// that it depends on the bytes alone.
pub uninterp spec fn sha256(data: Seq<u8>) -> Seq<u8>;

/// Calls `sha2::Sha256::digest`, the one-shot form of `sha2::Digest`, on
/// `data` and copies the output into a vector. Believed, not proved: the
/// output is the SHA-256 digest of `data`, and it is 32 bytes long.
#[verifier::external_body]
pub(crate) fn sha256_digest(data: &[u8]) -> (digest: Vec<u8>)
    ensures
        digest@ == sha256(data@),
        digest@.len() == DIGEST_LEN,
{
    sha2::Sha256::digest(data).to_vec()
}

} // verus!
