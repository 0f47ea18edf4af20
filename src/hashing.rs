use sha2::Digest;
use vstd::prelude::*;

use crate::types::{HashAlgorithm, Hash256};

verus! {

/// The CKB default hash (blake2b, 32-byte output, "ckb-default-hash"
/// personalization) of a byte string.
pub uninterp spec fn blake2b_256_of(data: Seq<u8>) -> Seq<u8>;

/// The SHA-256 digest of a byte string.
pub uninterp spec fn sha256_of(data: Seq<u8>) -> Seq<u8>;

/// The digest of `data` under `alg`.
pub open spec fn hash_with(alg: HashAlgorithm, data: Seq<u8>) -> Seq<u8> {
    match alg {
        HashAlgorithm::CkbHash => blake2b_256_of(data),
        HashAlgorithm::Sha256 => sha256_of(data),
    }
}

/// Relies on ckb_hash::blake2b_256: the CKB default hash of the input bytes.
#[verifier::external_body]
fn ckb_blake2b_256(data: &[u8; 32]) -> (r: [u8; 32])
    ensures
        r@ == blake2b_256_of(data@),
{
    ckb_hash::blake2b_256(data)
}

/// Relies on sha2::Sha256::digest: the SHA-256 digest of the input bytes.
#[verifier::external_body]
fn sha256_digest(data: &[u8; 32]) -> (r: [u8; 32])
    ensures
        r@ == sha256_of(data@),
{
    sha2::Sha256::digest(data).into()
}

/// Hashes a 32-byte value under the given algorithm.
pub fn hash_with_algorithm(alg: HashAlgorithm, data: &Hash256) -> (r: Hash256)
    ensures
        r@ == hash_with(alg, data@),
{
    match alg {
        HashAlgorithm::CkbHash => Hash256 { bytes: ckb_blake2b_256(&data.bytes) },
        HashAlgorithm::Sha256 => Hash256 { bytes: sha256_digest(&data.bytes) },
    }
}

} // verus!
