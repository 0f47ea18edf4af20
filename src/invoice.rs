use vstd::prelude::*;

use crate::hashing::{blake2b_256_of, hash_with_algorithm};
use crate::types::{HashAlgorithm, Hash256, Pubkey};

verus! {

/// The network an invoice is payable on.
#[derive(Clone, Copy, Debug, PartialEq, Eq, Structural)]
pub enum Currency {
    Fibb,
    Fibt,
    Fibd,
}

/// A payment request, unique by its payment hash.
#[derive(Clone, Debug, PartialEq, Eq)]
pub struct CkbInvoice {
    pub currency: Currency,
    pub amount: Option<u128>,
    pub payment_hash: Hash256,
    pub expiry_seconds: Option<u64>,
    pub description: Option<String>,
    pub fallback_address: Option<String>,
    pub final_htlc_timeout: Option<u64>,
    pub udt_type_script: Option<Vec<u8>>,
    pub payee_pub_key: Option<Pubkey>,
}

impl CkbInvoice {
    /// An invoice for `amount` whose payment hash is the CKB hash of
    /// `preimage`; every optional attribute is left empty.
    pub fn from_preimage(currency: Currency, amount: Option<u128>, preimage: &Hash256) -> (r:
        CkbInvoice)
        ensures
            r.payment_hash@ == blake2b_256_of(preimage@),
            r.currency == currency,
            r.amount == amount,
            r.expiry_seconds is None,
            r.description is None,
            r.fallback_address is None,
            r.final_htlc_timeout is None,
            r.udt_type_script is None,
            r.payee_pub_key is None,
    {
        CkbInvoice {
            currency,
            amount,
            payment_hash: hash_with_algorithm(HashAlgorithm::CkbHash, preimage),
            expiry_seconds: None,
            description: None,
            fallback_address: None,
            final_htlc_timeout: None,
            udt_type_script: None,
            payee_pub_key: None,
        }
    }

    /// The invoice's payment hash.
    pub fn payment_hash(&self) -> (r: &Hash256)
        ensures
            *r == self.payment_hash,
    {
        &self.payment_hash
    }
}

} // verus!
