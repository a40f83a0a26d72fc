use vstd::prelude::*;
use vstd::string::StringSliceAdditionalSpecFns;

verus! {

/// The 64-bit xxHash of `input` under `seed`.
pub uninterp spec fn xxh64_digest(input: Seq<u8>, seed: u64) -> u64;

/// `xxhash_rust::xxh64::xxh64` computes the XXH64 digest of its input under
/// the given seed: a function of the bytes and the seed alone, which returns
/// for every input.
pub assume_specification[ xxhash_rust::xxh64::xxh64 ](input: &[u8], seed: u64) -> (digest: u64)
    ensures
        digest == xxh64_digest(input@, seed),
;

/// The position that a digest selects in an array of `vector_size` bits.
pub open spec fn position(digest: u64, vector_size: nat) -> int
    recommends
        vector_size > 0,
{
    digest as int % vector_size as int
}

/// The position that the hash function of ordinal `seed` gives to `item` in
/// an array of `vector_size` bits.
pub open spec fn slot(item: Seq<u8>, seed: nat, vector_size: nat) -> int
    recommends
        vector_size > 0,
        seed <= u64::MAX,
{
    position(xxh64_digest(item, seed as u64), vector_size)
}

/// Hashes the UTF-8 bytes of `value` under `seed`.
pub fn hash(value: &str, seed: usize) -> (digest: u64)
    ensures
        digest == xxh64_digest(value.spec_bytes(), seed as u64),
{
    xxhash_rust::xxh64::xxh64(value.as_bytes(), seed as u64)
}

/// Reduces a digest to a position in an array of `vector_size` bits.
pub fn reduce(digest: u64, vector_size: usize) -> (index: usize)
    requires
        vector_size > 0,
    ensures
        index == position(digest, vector_size as nat),
        index < vector_size,
{
    (digest % (vector_size as u64)) as usize
}

/// The position of `value` under the hash function of ordinal `seed`, in an
/// array of `vector_size` bits.
pub fn modulo(value: &str, seed: usize, vector_size: usize) -> (index: usize)
    requires
        vector_size > 0,
    ensures
        index == slot(value.spec_bytes(), seed as nat, vector_size as nat),
        index < vector_size,
{
    reduce(hash(value, seed), vector_size)
}

} // verus!
