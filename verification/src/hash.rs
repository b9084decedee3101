//! The running SHA-256 hash of a stream of bytes.

use sha2::Digest;
use vstd::prelude::*;

verus! {

/// The hasher of the `sha2` crate.
#[verifier::external_type_specification]
#[verifier::external_body]
pub struct ExSha256(sha2::Sha256);

/// The number of bytes that a hasher can take: SHA-256 counts their bits in 64
/// bits.
pub const MAX_HASHED_BYTES: u64 = 0x1fff_ffff_ffff_ffff;

/// The bytes that a hasher was given so far.
pub uninterp spec fn sha256_input(hasher: sha2::Sha256) -> Seq<u8>;

/// The SHA-256 digest of a byte string.
pub uninterp spec fn sha256_digest(input: Seq<u8>) -> Seq<u8>;

/// `sha2::Sha256::new` makes a hasher that was given no bytes.
#[verifier::external_body]
pub(crate) fn sha256_new() -> (hasher: sha2::Sha256)
    ensures
        sha256_input(hasher) == Seq::<u8>::empty(),
{
    sha2::Sha256::new()
}

/// `Digest::update` gives bytes to a hasher, after those that it was given
/// before.
#[verifier::external_body]
pub(crate) fn sha256_update(hasher: &mut sha2::Sha256, data: &[u8])
    requires
        sha256_input(*old(hasher)).len() + data@.len() <= MAX_HASHED_BYTES,
    ensures
        sha256_input(*final(hasher)) == sha256_input(*old(hasher)) + data@,
{
    hasher.update(data);
}

/// `Digest::finalize` returns the digest, of 32 bytes, of all the bytes that a
/// hasher was given.
#[verifier::external_body]
pub(crate) fn sha256_finalize(hasher: sha2::Sha256) -> (digest: Vec<u8>)
    requires
        sha256_input(hasher).len() <= MAX_HASHED_BYTES,
    ensures
        digest@ == sha256_digest(sha256_input(hasher)),
        digest@.len() == 32,
{
    hasher.finalize().to_vec()
}

} // verus!
