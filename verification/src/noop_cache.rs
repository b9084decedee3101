//! A cache that holds nothing and keeps nothing.

use vstd::prelude::*;
use vstd::utf8::*;

use crate::store_path::NarInfoFileName;

verus! {

/// A cache that holds nothing and keeps nothing. Requests to it never fail.
#[derive(Clone, Copy, Debug)]
pub struct NoopCache {}

impl Default for NoopCache {
    fn default() -> (cache: Self)
        ensures
            cache == (NoopCache {  }),
    {
        NoopCache {  }
    }
}

impl NoopCache {
    /// Returns whether the cache has a NARInfo, which it never does.
    pub fn has_narinfo(&self, _name: &NarInfoFileName) -> (present: bool)
        ensures
            !present,
    {
        false
    }

    /// Throws away a NARInfo, given in its written form, and returns how many
    /// bytes it has.
    pub fn upload_narinfo(&self, narinfo: &str) -> (size: u64)
        ensures
            size == encode_utf8(narinfo@).len(),
    {
        narinfo.as_bytes().len() as u64
    }
}

} // verus!
