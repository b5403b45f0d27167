//! Trusted digest primitives. The two digests are named, not written out:
//! each name stands for what the outside function returns, and every
//! contract that speaks of a digest speaks of the name.

use vstd::prelude::*;
use sha2::Digest;

verus! {

/// The keccak-256 digest of `data`.
pub uninterp spec fn keccak256_of(data: Seq<u8>) -> Seq<u8>;

/// The sha-256 digest of `data`.
pub uninterp spec fn sha256_of(data: Seq<u8>) -> Seq<u8>;

/// Relies on `alloy_primitives::keccak256`: the digest is 32 bytes and a
/// function of the input bytes alone.
#[verifier::external_body]
pub fn keccak256(data: &Vec<u8>) -> (r: Vec<u8>)
    ensures
        r@ == keccak256_of(data@),
        r@.len() == 32,
{
    alloy_primitives::keccak256(data.as_slice()).to_vec()
}

/// Relies on `sha2::Sha256::digest`: the digest is 32 bytes and a function
/// of the input bytes alone.
#[verifier::external_body]
pub fn sha256(data: &Vec<u8>) -> (r: Vec<u8>)
    ensures
        r@ == sha256_of(data@),
        r@.len() == 32,
{
    sha2::Sha256::digest(data.as_slice()).to_vec()
}

} // verus!
