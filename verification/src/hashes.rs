//! Trusted boundary to the two cryptographic hash functions.
//!
//! The digests themselves are not specified here: each is given a name
//! (an uninterpreted spec function), so every contract built on top of
//! them states the exact preimage bytes that are hashed.

use vstd::prelude::*;

verus! {

/// The 32-byte Keccak-256 digest of `data`, as computed by `sha3::Keccak256`.
pub uninterp spec fn keccak_of(data: Seq<u8>) -> Seq<u8>;

/// The 32-byte Blake2b-256 digest of `data` under the 16-byte
/// personalization `personal`, as computed by `blake2b_ref`.
pub uninterp spec fn blake2b256_of(personal: Seq<u8>, data: Seq<u8>) -> Seq<u8>;

/// Relies on `sha3::Keccak256` (through `digest::Digest::digest`): the
/// digest is 32 bytes and a function of the input bytes alone.
#[verifier::external_body]
pub fn keccak256(data: &[u8]) -> (r: [u8; 32])
    ensures
        r@ == keccak_of(data@),
{
    let mut out = [0u8; 32];
    out.copy_from_slice(&<sha3::Keccak256 as sha3::Digest>::digest(data));
    out
}

/// Relies on `blake2b_ref::Blake2bBuilder` with a 32-byte output length and
/// the given 16-byte personalization: the digest is a function of the
/// personalization and the input bytes alone.
#[verifier::external_body]
pub fn blake2b256(personal: &[u8; 16], data: &[u8]) -> (r: [u8; 32])
    ensures
        r@ == blake2b256_of(personal@, data@),
{
    let mut hasher = blake2b_ref::Blake2bBuilder::new(32).personal(personal.as_slice()).build();
    hasher.update(data);
    let mut out = [0u8; 32];
    hasher.finalize(&mut out);
    out
}

} // verus!
