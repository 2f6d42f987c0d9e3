//! The one hash function of the queue: XXH3 (64-bit), used both to place a
//! job in a bucket and to score workers for bucket ownership.

use vstd::prelude::*;

verus! {

/// The 64-bit XXH3 hash (default secret, seed 0) of a byte string, as
/// `xxhash_rust::xxh3::xxh3_64` computes it.
pub uninterp spec fn xxh3_64_of(bytes: Seq<u8>) -> u64;

/// Calls `xxhash_rust::xxh3::xxh3_64`, a pure function of its input: the
/// contract claims only that the result is `xxh3_64_of` of the bytes.
#[verifier::external_body]
pub(crate) fn xxh3_64(bytes: &[u8]) -> (hash: u64)
    ensures
        hash == xxh3_64_of(bytes@),
{
    xxhash_rust::xxh3::xxh3_64(bytes)
}

/// Appends every byte of `extra` to `bytes`.
pub(crate) fn push_bytes(bytes: &mut Vec<u8>, extra: &[u8])
    ensures
        final(bytes)@ == old(bytes)@ + extra@,
{
    let mut i: usize = 0;
    while i < extra.len()
        invariant
            0 <= i <= extra@.len(),
            bytes@ == old(bytes)@ + extra@.take(i as int),
        decreases extra@.len() - i,
    {
        bytes.push(extra[i]);
        assert(extra@.take(i + 1) == extra@.take(i as int).push(extra@[i as int]));
        i = i + 1;
    }
    assert(extra@.take(extra@.len() as int) == extra@);
}

} // verus!
