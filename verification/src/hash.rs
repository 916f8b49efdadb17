//! The 128-bit XXH3 hash of `xxhash_rust`.
use vstd::prelude::*;

verus! {

/// The value of `xxhash_rust::xxh3::xxh3_128` (seed 0, default secret) on
/// the given bytes.
pub uninterp spec fn xxh3_128_of(input: Seq<u8>) -> u128;

/// Calls `xxhash_rust::xxh3::xxh3_128`. Its source computes the hash from
/// the bytes alone, with a fixed seed and secret, and does not panic; the
/// contract says only that the result is that function of the bytes.
#[verifier::external_body]
pub(crate) fn xxh3_128(input: &[u8]) -> (r: u128)
    ensures
        r == xxh3_128_of(input@),
{
    xxhash_rust::xxh3::xxh3_128(input)
}

} // verus!
