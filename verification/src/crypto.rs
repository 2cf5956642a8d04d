//! Cryptographic derivations the batch assembly relies on: the randomness
//! seed hashed from the random-tape artifact, and the self-authenticating id
//! derived from a threshold public key. The digests come from an outside
//! crate; their results are named, not restated.

use sha2::Digest;
use vstd::prelude::*;

verus! {

/// The SHA-256 digest of `bytes`.
pub uninterp spec fn sha256_of(bytes: Seq<u8>) -> Seq<u8>;

/// The SHA-224 digest of `bytes`.
pub uninterp spec fn sha224_of(bytes: Seq<u8>) -> Seq<u8>;

/// Relies on sha2::Sha256 (FIPS 180-4): the digest is a function of the input
/// bytes alone, and is exactly 32 bytes long.
#[verifier::external_body]
fn sha256(bytes: &Vec<u8>) -> (r: Vec<u8>)
    ensures
        r@ == sha256_of(bytes@),
        r@.len() == 32,
{
    sha2::Sha256::digest(bytes.as_slice()).to_vec()
}

/// Relies on sha2::Sha224 (FIPS 180-4): the digest is a function of the input
/// bytes alone, and is exactly 28 bytes long.
#[verifier::external_body]
fn sha224(bytes: &Vec<u8>) -> (r: Vec<u8>)
    ensures
        r@ == sha224_of(bytes@),
        r@.len() == 28,
{
    sha2::Sha224::digest(bytes.as_slice()).to_vec()
}

/// The randomness seed of a height: the hash of its random-tape artifact.
pub open spec fn randomness_of(tape: Seq<u8>) -> Seq<u8> {
    sha256_of(tape)
}

/// Hashes the random-tape artifact into the batch's randomness seed.
pub fn derive_randomness(tape: &Vec<u8>) -> (r: Vec<u8>)
    ensures
        r@ == randomness_of(tape@),
{
    sha256(tape)
}

/// Marker byte of a self-authenticating principal id.
pub const SELF_AUTHENTICATING_TAG: u8 = 2;

/// The self-authenticating id of a public key: its SHA-224 digest followed by
/// the marker byte.
pub open spec fn self_authenticating_id(public_key: Seq<u8>) -> Seq<u8> {
    sha224_of(public_key).push(SELF_AUTHENTICATING_TAG)
}

/// Derives the fresh subnet id owned by a newly set-up subnet from its
/// high-threshold public key.
pub fn derive_subnet_id(public_key: &Vec<u8>) -> (r: Vec<u8>)
    ensures
        r@ == self_authenticating_id(public_key@),
{
    let mut d = sha224(public_key);
    d.push(SELF_AUTHENTICATING_TAG);
    d
}

} // verus!
