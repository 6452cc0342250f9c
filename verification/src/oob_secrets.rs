//! Secrets that two parties agree on out of band.

use vstd::prelude::*;

use crate::security::secure_rng::RngError;
use crate::security::secure_rng::random;

verus! {

/// The length of an out-of-band secret, in bytes.
pub const OOB_SECRET_LEN: usize = 32;

/// A fresh out-of-band secret of 32 bytes.
pub fn generate_oob_secret() -> (out: Result<Vec<u8>, RngError>)
    ensures
        out matches Ok(secret) ==> secret@.len() == OOB_SECRET_LEN,
{
    random::bytes(OOB_SECRET_LEN)
}

} // verus!
