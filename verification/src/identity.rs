//! Identities: the signing key pair of a party, identifiers, and proofs of
//! key ownership.

use vstd::prelude::*;

use crate::bytes::copy_bytes;
use crate::crypto::session_model::signer_valid;
use crate::primitives::{
    dilithium2_accepts, dilithium2_keypair, dilithium2_sign, dilithium2_signature,
    dilithium2_verify, DILITHIUM_SECRET_KEY_LEN,
};

pub mod contact_manager;
pub mod identity_key;
pub mod zk_proof;

verus! {

/// Why an identity operation was refused.
#[derive(Debug, Clone, Copy, PartialEq, Eq, Structural)]
pub enum IdentityError {
    /// The secret key has the wrong length.
    InvalidKey,
    /// The signature was not accepted.
    SignatureInvalid,
}

/// The post-quantum signing key pair of a party.
pub struct IdentityKeyPair {
    pub sk: Vec<u8>,
    pub pk: Vec<u8>,
}

impl IdentityKeyPair {
    /// Draws a fresh key pair.
    pub fn generate() -> (out: Result<Self, IdentityError>)
        ensures
            out matches Ok(pair) && signer_valid(pair.pk@, pair.sk@),
    {
        let pair = dilithium2_keypair();
        Ok(IdentityKeyPair { sk: pair.1, pk: pair.0 })
    }

    /// Signs a message. Refused where the secret key has the wrong length.
    pub fn sign_message(&self, message: &[u8]) -> (out: Result<Vec<u8>, IdentityError>)
        ensures
            self.sk@.len() != DILITHIUM_SECRET_KEY_LEN ==> out == Err::<Vec<u8>, IdentityError>(
                IdentityError::InvalidKey,
            ),
            self.sk@.len() == DILITHIUM_SECRET_KEY_LEN ==> (out matches Ok(signature)
                && signature@ == dilithium2_signature(message@, self.sk@)),
    {
        match dilithium2_sign(message, self.sk.as_slice()) {
            Some(signature) => Ok(signature),
            None => Err(IdentityError::InvalidKey),
        }
    }

    /// Verifies a signature on a message under the pair's public key.
    pub fn verify_signature(&self, message: &[u8], signature: &[u8]) -> (out: Result<
        (),
        IdentityError,
    >)
        ensures
            out == if dilithium2_accepts(signature@, message@, self.pk@) {
                Ok::<(), IdentityError>(())
            } else {
                Err::<(), IdentityError>(IdentityError::SignatureInvalid)
            },
    {
        if dilithium2_verify(signature, message, self.pk.as_slice()) {
            Ok(())
        } else {
            Err(IdentityError::SignatureInvalid)
        }
    }

    /// A copy of the public key.
    pub fn public_key(&self) -> (out: Vec<u8>)
        ensures
            out@ == self.pk@,
    {
        copy_bytes(self.pk.as_slice())
    }
}

/// A party with its name and keys.
pub struct Identity {
    pub name: String,
    pub public_key: Vec<u8>,
    pub private_key: Vec<u8>,
}

/// A ratchet state as it is stored, with the time it was stored at.
pub struct StoredState {
    pub ratchet_state: Vec<u8>,
    pub timestamp: u64,
}

/// After how many seconds without access a stored state locks itself.
pub const AUTOLOCK_SECS: u64 = 300;

/// Whether a stored state that was last accessed at `last_access` is
/// locked at `now`: more than the autolock time has passed.
pub open spec fn state_locked(last_access: u64, now: u64) -> bool {
    now > last_access && now - last_access > AUTOLOCK_SECS
}

/// Decides whether a stored state is locked.
pub fn is_state_locked(last_access: u64, now: u64) -> (out: bool)
    ensures
        out == state_locked(last_access, now),
{
    now > last_access && now - last_access > AUTOLOCK_SECS
}

} // verus!
