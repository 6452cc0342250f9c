//! Key pairs for the handshake of a session.

use vstd::prelude::*;

use crate::bytes::array32;
use crate::crypto::session_model::dh_agrees;
use crate::primitives::{
    kyber768_keypair, os_random_bytes, x25519_public, x25519_public_key, x25519_shared,
    KYBER_PUBLIC_KEY_LEN, KYBER_SECRET_KEY_LEN,
};

verus! {

/// A classical Diffie-Hellman key pair.
#[derive(Clone, Copy)]
pub struct DhKeyPair {
    pub public_key: [u8; 32],
    pub secret_key: [u8; 32],
}

impl DhKeyPair {
    /// The key pair of a secret key. It agrees with every other key pair:
    /// each secret key with the other's public key gives the same shared
    /// secret.
    pub fn from_secret(secret_key: [u8; 32]) -> (out: Self)
        ensures
            out.secret_key == secret_key,
            out.public_key@ == x25519_public(secret_key@),
            forall|other: Seq<u8>| other.len() == 32 ==> #[trigger] dh_agrees(secret_key@, other),
    {
        let public_key = x25519_public_key(&secret_key);
        assert forall|other: Seq<u8>| other.len() == 32 implies #[trigger] dh_agrees(
            secret_key@,
            other,
        ) by {
            assert(x25519_shared(other, public_key@) == x25519_shared(
                secret_key@,
                x25519_public(other),
            ));
        }
        DhKeyPair { public_key, secret_key }
    }

    /// A fresh key pair, or nothing where the operating system gave no
    /// random bytes.
    pub fn generate() -> (out: Option<Self>)
        ensures
            out matches Some(pair) ==> pair.public_key@ == x25519_public(pair.secret_key@)
                && forall|other: Seq<u8>|
                other.len() == 32 ==> #[trigger] dh_agrees(pair.secret_key@, other),
    {
        match os_random_bytes(32) {
            Some(bytes) => Some(DhKeyPair::from_secret(array32(bytes.as_slice()))),
            None => None,
        }
    }
}

/// A post-quantum key pair for key encapsulation.
pub struct PqKeyPair {
    pub public_key: Vec<u8>,
    pub secret_key: Vec<u8>,
}

impl PqKeyPair {
    /// A fresh key pair.
    pub fn generate() -> (out: Self)
        ensures
            out.public_key@.len() == KYBER_PUBLIC_KEY_LEN,
            out.secret_key@.len() == KYBER_SECRET_KEY_LEN,
    {
        let pair = kyber768_keypair();
        PqKeyPair { public_key: pair.0, secret_key: pair.1 }
    }
}

} // verus!
