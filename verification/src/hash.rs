//! The content hash of a file's bytes: the key under which extracted facts are
//! cached, and the base of duplicate-code fingerprints.

use vstd::prelude::*;

verus! {

/// What XXH3 (64-bit, default seed) gives for a byte string.
pub uninterp spec fn xxh3_of(bytes: Seq<u8>) -> u64;

/// `xxhash_rust::xxh3::xxh3_64`: the 64-bit XXH3 hash of the bytes. It is a
/// function of the bytes alone; its value on given bytes is not stated here.
#[verifier::external_body]
pub fn content_hash(source: &[u8]) -> (r: u64)
    ensures
        r == xxh3_of(source@),
{
    xxhash_rust::xxh3::xxh3_64(source)
}

} // verus!
