//! Small tools for common needs.

use vstd::prelude::*;

use crate::errors::QubeeError;
use crate::primitives::{blake3_digest, blake3_hash, ct_eq_bytes};
use crate::security::secure_memory::zeros;
use crate::security::secure_rng::random;

verus! {

/// A random key of `length` bytes.
pub fn generate_random_key(length: usize) -> (out: Result<Vec<u8>, QubeeError>)
    ensures
        out matches Ok(key) ==> key@.len() == length,
        out matches Err(e) ==> e is Cryptographic,
{
    match random::bytes(length) {
        Ok(key) => Ok(key),
        Err(_) => Err(QubeeError::Cryptographic("Failed to get entropy from OS".to_string())),
    }
}

/// The BLAKE3 hash of `data`.
pub fn hash_data(data: &[u8]) -> (out: [u8; 32])
    ensures
        out@ == blake3_digest(data@),
{
    blake3_hash(data)
}

/// Whether two byte strings hold the same bytes, compared in constant time.
pub fn constant_time_eq(a: &[u8], b: &[u8]) -> (out: bool)
    ensures
        out == (a@ == b@),
{
    ct_eq_bytes(a, b)
}

/// Wipes a byte string: every byte is zero afterwards.
pub fn secure_zeroize(data: &mut Vec<u8>)
    ensures
        final(data)@ == zeros(old(data)@.len()),
{
    crate::security::secure_memory::wipe(data);
}

} // verus!
