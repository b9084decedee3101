//! A stand-in for a Nix store, which knows every store path.

use vstd::prelude::*;

use crate::store_path;
use crate::store_path::{CompressionAlgorithm, NarInfo, StorePath};

verus! {

/// A stand-in for a Nix store, which knows every store path.
#[derive(Clone, Copy, Debug)]
pub struct NixCli;

/// The number of bytes of the digests that the stand-in gives.
pub const DIGEST_LEN: usize = 32;

/// A digest of which every byte is zero.
pub open spec fn zero_digest() -> Seq<u8> {
    Seq::new(DIGEST_LEN as nat, |i: int| 0)
}

/// Returns a digest of which every byte is zero.
fn new_zero_digest() -> (digest: Vec<u8>)
    ensures
        digest@ == zero_digest(),
{
    let mut digest: Vec<u8> = Vec::new();
    while digest.len() < DIGEST_LEN
        invariant
            digest@.len() <= DIGEST_LEN,
            forall|i: int| 0 <= i < digest@.len() ==> digest@[i] == 0,
        decreases DIGEST_LEN - digest@.len(),
    {
        digest.push(0);
    }
    assert(digest@ =~= zero_digest());
    digest
}

impl NixCli {
    /// Returns the same NARInfo for every store path.
    pub fn get_narinfo(&self, store_path: &StorePath) -> (narinfo: NarInfo)
        ensures
            narinfo.store_path@ == store_path@,
            narinfo.compression == CompressionAlgorithm::Uncompressed,
            narinfo.file_hash@ == zero_digest(),
            narinfo.file_size == 42,
            narinfo.nar_hash@ == zero_digest(),
            narinfo.nar_size == 42,
            narinfo.references@.len() == 0,
            narinfo.deriver is None,
            narinfo.signatures@.len() == 0,
            narinfo.content_address is None,
    {
        NarInfo {
            store_path: store_path.clone(),
            compression: CompressionAlgorithm::Uncompressed,
            file_hash: new_zero_digest(),
            file_size: 42,
            nar_hash: new_zero_digest(),
            nar_size: 42,
            references: Vec::new(),
            deriver: None,
            signatures: Vec::new(),
            content_address: None,
        }
    }

    /// Returns the same NAR for every store path, and the hash by which its file
    /// is named.
    pub fn pack_nar(&self, _store_path: &StorePath) -> (nar: (Vec<u8>, Vec<u8>))
        ensures
            nar.0@ == seq![42u8],
            nar.1@ == zero_digest(),
    {
        (vec![42], new_zero_digest())
    }

    /// Returns the closure of a store path, which holds nothing but the path.
    pub fn store_closure(&self, store_path: &StorePath) -> (paths: Vec<StorePath>)
        ensures
            store_path::path_views(paths@) == seq![store_path@],
    {
        let paths: Vec<StorePath> = vec![store_path.clone()];
        assert(store_path::path_views(paths@) =~= seq![store_path@]);
        paths
    }
}

/// The digest that the stand-in gives has 32 bytes, all of them zero.
pub proof fn law_stand_in_digest_is_zero()
    ensures
        zero_digest().len() == 32,
        forall|i: int| 0 <= i < 32 ==> #[trigger] zero_digest()[i] == 0,
{
}

} // verus!
