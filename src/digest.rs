//! Header signatures: 128-bit XXH3 digests of the header bytes.
//!
//! Two distinct headers with the same digest are reported as duplicates. The
//! digest is 128 bits wide, so this happens with negligible probability, and in
//! exchange the set of seen headers holds one fixed-size value per record.
use vstd::prelude::*;

verus! {

/// The 128-bit XXH3 digest (default secret, seed zero) of a byte sequence.
pub uninterp spec fn xxh3_128_of(bytes: Seq<u8>) -> u128;

/// Relies on `xxhash_rust::xxh3::xxh3_128`: a digest computed from the bytes
/// alone, with the crate's fixed default secret and seed zero.
#[verifier::external_body]
pub(crate) fn header_digest(bytes: &[u8]) -> (r: u128)
    ensures
        r == xxh3_128_of(bytes@),
{
    xxhash_rust::xxh3::xxh3_128(bytes)
}

} // verus!
