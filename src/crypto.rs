//! The cryptographic primitives the core leans on: SHA-256, the ChaCha20
//! stream generator and operating-system entropy.
use vstd::prelude::*;

verus! {

/// The SHA-256 digest of a byte string.
pub uninterp spec fn sha256_of(data: Seq<u8>) -> Seq<u8>;

/// The first 64-bit word drawn from a ChaCha20 generator keyed by `seed`.
pub uninterp spec fn chacha20_first_u64(seed: Seq<u8>) -> u64;

/// Relies on `sha2::Sha256` through `sha2::Digest::digest`: the SHA-256
/// digest of `data`, which depends on the bytes alone.
#[verifier::external_body]
pub(crate) fn sha256(data: &Vec<u8>) -> (r: [u8; 32])
    ensures
        r@ == sha256_of(data@),
{
    <sha2::Sha256 as sha2::Digest>::digest(data.as_slice()).into()
}

/// Relies on `rand_core::SeedableRng::from_seed` for `rand_chacha::ChaChaRng`
/// followed by one `rand_core::RngCore::next_u64`: the first word of the
/// ChaCha20 stream, which depends on the seed alone.
#[verifier::external_body]
pub(crate) fn chacha_first_u64(seed: [u8; 32]) -> (r: u64)
    ensures
        r == chacha20_first_u64(seed@),
{
    let mut rng = <rand_chacha::ChaChaRng as rand_core::SeedableRng>::from_seed(seed);
    rand_core::RngCore::next_u64(&mut rng)
}

/// Relies on `rand_core::SeedableRng::from_entropy` for
/// `rand_chacha::ChaChaRng` (seeded by the operating system through
/// `getrandom`; it panics only if the system offers no entropy) and
/// `rand_core::RngCore::fill_bytes`: 32 fresh random bytes, of which nothing
/// is promised.
#[verifier::external_body]
pub(crate) fn fresh_seed() -> (r: [u8; 32]) {
    let mut rng = <rand_chacha::ChaChaRng as rand_core::SeedableRng>::from_entropy();
    let mut seed = [0u8; 32];
    rand_core::RngCore::fill_bytes(&mut rng, &mut seed);
    seed
}

} // verus!
