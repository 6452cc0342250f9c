//! Identities with a classical and a post-quantum signing key, their
//! signatures, and the identifiers of identities and devices.

use vstd::bytes::{spec_u64_to_le_bytes, u64_to_le_bytes};
use vstd::prelude::*;
use vstd::string::StringExecFns;

use crate::bytes::{bytes_equal, concat2, concat3, copy_bytes};
use crate::primitives::{
    blake3_digest, blake3_hash, dilithium2_accepts, dilithium2_keypair, dilithium2_sign,
    dilithium2_signature, dilithium2_verify, ed25519_accepts, ed25519_is_key,
    ed25519_key_is_valid, ed25519_public_key, ed25519_sign, ed25519_signature,
    ed25519_verify, hex_encode, hex_encode_upper, hex_text, hex_text_upper, unix_time_secs,
    zeroize_key, zeroize_vec, DILITHIUM_PUBLIC_KEY_LEN, DILITHIUM_SECRET_KEY_LEN,
};
use crate::security::secure_rng::random;

verus! {

/// The identifier of an identity, derived from its public keys.
#[derive(Clone, Copy, PartialEq, Eq, Hash, Debug)]
pub struct IdentityId(pub [u8; 32]);

/// The identifier of a device.
#[derive(Clone, Copy, PartialEq, Eq, Hash, Debug)]
pub struct DeviceId(pub [u8; 16]);

impl IdentityId {
    /// The identifier with the bytes handed in.
    pub fn from_bytes(bytes: [u8; 32]) -> (out: Self)
        ensures
            out.0 == bytes,
    {
        IdentityId(bytes)
    }

    /// The bytes of the identifier.
    pub fn as_bytes(&self) -> (out: &[u8; 32])
        ensures
            *out == self.0,
    {
        &self.0
    }

    /// The identifier for display: its first eight bytes in hexadecimal.
    pub fn label(&self) -> (out: String)
        ensures
            out@ == hex_text(self.0@.subrange(0, 8)),
    {
        hex_encode(vstd::slice::slice_subrange(self.0.as_slice(), 0, 8))
    }

    /// Whether two identifiers are the same.
    pub fn same(&self, other: &IdentityId) -> (out: bool)
        ensures
            out == (self.0@ == other.0@),
    {
        crate::bytes::bytes_equal(self.0.as_slice(), other.0.as_slice())
    }
}

impl DeviceId {
    /// The identifier with the bytes handed in.
    pub fn from_bytes(bytes: [u8; 16]) -> (out: Self)
        ensures
            out.0 == bytes,
    {
        DeviceId(bytes)
    }

    /// The bytes of the identifier.
    pub fn as_bytes(&self) -> (out: &[u8; 16])
        ensures
            *out == self.0,
    {
        &self.0
    }

    /// The identifier for display: its first four bytes in hexadecimal.
    pub fn label(&self) -> (out: String)
        ensures
            out@ == hex_text(self.0@.subrange(0, 4)),
    {
        hex_encode(vstd::slice::slice_subrange(self.0.as_slice(), 0, 4))
    }
}

/// For how many seconds a hybrid signature counts as fresh.
pub const SIGNATURE_MAX_AGE_SECS: u64 = 300;

/// `"qubee_identity_id"`: the label under which an identifier is derived
/// from the public keys.
pub open spec fn identity_id_label() -> Seq<u8> {
    seq![113u8, 117, 98, 101, 101, 95, 105, 100, 101, 110, 116, 105, 116, 121, 95, 105, 100]
}

/// The identifier of the identity with the public keys handed in.
pub open spec fn identity_id_of(classical_public: Seq<u8>, pq_public: Seq<u8>) -> Seq<u8> {
    blake3_digest(classical_public + pq_public + identity_id_label())
}

/// What a hybrid signature signs: the data, the time of signing and the
/// signer's identifier.
pub open spec fn signed_message(data: Seq<u8>, timestamp: u64, identity_id: Seq<u8>) -> Seq<u8> {
    data + spec_u64_to_le_bytes(timestamp) + identity_id
}

/// Whether a signature made at `timestamp` is still fresh at `now`.
pub open spec fn is_fresh(timestamp: u64, now: u64) -> bool {
    now <= timestamp || now - timestamp <= SIGNATURE_MAX_AGE_SECS
}

/// Whether signatures made with the secret keys are accepted under the
/// public keys: the classical as well as the post-quantum ones.
pub open spec fn keys_belong(
    classical_private: Seq<u8>,
    classical_public: Seq<u8>,
    pq_private: Seq<u8>,
    pq_public: Seq<u8>,
) -> bool {
    &&& forall|m: Seq<u8>|
        ed25519_accepts(classical_public, m, #[trigger] ed25519_signature(classical_private, m))
    &&& forall|m: Seq<u8>|
        dilithium2_accepts(#[trigger] dilithium2_signature(m, pq_private), m, pq_public)
}

/// A signature by a classical and a post-quantum key at once.
pub struct HybridSignature {
    pub classical_signature: [u8; 64],
    pub pq_signature: Vec<u8>,
    pub signer_identity: IdentityId,
    /// When the signature was made, in seconds since the Unix epoch.
    pub timestamp: u64,
}

/// The public half of an identity.
pub struct IdentityKey {
    pub classical_public: [u8; 32],
    pub pq_public: Vec<u8>,
    pub identity_id: IdentityId,
    pub created_at: u64,
}

/// Why key material was refused.
#[derive(Clone, Copy, PartialEq, Eq, Debug, Structural)]
pub enum IdentityKeyError {
    /// The classical public key is no point of the curve.
    InvalidClassicalPublicKey,
    /// The post-quantum secret key has the wrong length.
    InvalidPqPrivateKey,
    /// The post-quantum public key has the wrong length.
    InvalidPqPublicKey,
    /// No random bytes were to be had.
    EntropyUnavailable,
}

/// An identity: a classical and a post-quantum signing key pair, and the
/// identifier derived from the two public keys.
pub struct IdentityKeyPair {
    classical_private: [u8; 32],
    classical_public: [u8; 32],
    pq_private: Vec<u8>,
    pq_public: Vec<u8>,
    identity_id: IdentityId,
    created_at: u64,
}

fn derive_identity_id(classical_public: &[u8; 32], pq_public: &[u8]) -> (out: IdentityId)
    ensures
        out.0@ == identity_id_of(classical_public@, pq_public@),
{
    let label: [u8; 17] = [
        113, 117, 98, 101, 101, 95, 105, 100, 101, 110, 116, 105, 116, 121, 95, 105, 100,
    ];
    assert(label@ =~= identity_id_label());
    let fed = concat3(classical_public.as_slice(), pq_public, label.as_slice());
    IdentityId(blake3_hash(fed.as_slice()))
}

fn message_to_sign(data: &[u8], timestamp: u64, identity_id: &IdentityId) -> (out: Vec<u8>)
    ensures
        out@ == signed_message(data@, timestamp, identity_id.0@),
{
    let time = u64_to_le_bytes(timestamp);
    concat3(data, time.as_slice(), identity_id.0.as_slice())
}

impl IdentityKeyPair {
    /// The classical secret key.
    pub closed spec fn classical_private(&self) -> Seq<u8> {
        self.classical_private@
    }

    /// The classical public key.
    pub closed spec fn classical_public(&self) -> Seq<u8> {
        self.classical_public@
    }

    /// The post-quantum secret key.
    pub closed spec fn pq_private(&self) -> Seq<u8> {
        self.pq_private@
    }

    /// The post-quantum public key.
    pub closed spec fn pq_public(&self) -> Seq<u8> {
        self.pq_public@
    }

    /// The identifier.
    pub closed spec fn id(&self) -> Seq<u8> {
        self.identity_id.0@
    }

    /// When the identity was made.
    pub closed spec fn created_at(&self) -> u64 {
        self.created_at
    }

    /// The post-quantum keys have their lengths, and the identifier is
    /// derived from the public keys.
    #[verifier::type_invariant]
    spec fn inv(&self) -> bool {
        &&& self.pq_private@.len() == DILITHIUM_SECRET_KEY_LEN
        &&& self.pq_public@.len() == DILITHIUM_PUBLIC_KEY_LEN
        &&& self.identity_id.0@ == identity_id_of(self.classical_public@, self.pq_public@)
    }

    /// Whether the secret keys and the public keys belong together.
    pub open spec fn is_consistent(&self) -> bool {
        keys_belong(
            self.classical_private(),
            self.classical_public(),
            self.pq_private(),
            self.pq_public(),
        )
    }

    /// Draws a fresh identity now.
    pub fn generate() -> (out: Result<Self, IdentityKeyError>)
        ensures
            out matches Ok(pair) ==> pair.is_consistent() && pair.id() == identity_id_of(
                pair.classical_public(),
                pair.pq_public(),
            ),
            out matches Err(e) ==> e == IdentityKeyError::EntropyUnavailable,
    {
        let classical_private = match random::array::<32>() {
            Ok(bytes) => bytes,
            Err(_) => {
                return Err(IdentityKeyError::EntropyUnavailable);
            },
        };
        let classical_public = ed25519_public_key(&classical_private);
        let pq = dilithium2_keypair();
        let identity_id = derive_identity_id(&classical_public, pq.0.as_slice());
        Ok(
            IdentityKeyPair {
                classical_private,
                classical_public,
                pq_private: pq.1,
                pq_public: pq.0,
                identity_id,
                created_at: unix_time_secs(),
            },
        )
    }

    /// Makes an identity of stored key material. Refused where the
    /// classical public key is no point of the curve, or where a
    /// post-quantum key has the wrong length. Whether the secret keys
    /// belong to the public keys is not looked into.
    pub fn from_bytes(
        classical_private: &[u8; 32],
        pq_private: &[u8],
        classical_public: &[u8; 32],
        pq_public: &[u8],
        created_at: u64,
    ) -> (out: Result<Self, IdentityKeyError>)
        ensures
            match out {
                Ok(pair) => ed25519_is_key(classical_public@) && pq_private@.len()
                    == DILITHIUM_SECRET_KEY_LEN && pq_public@.len() == DILITHIUM_PUBLIC_KEY_LEN
                    && pair.classical_private() == classical_private@ && pair.classical_public()
                    == classical_public@ && pair.pq_private() == pq_private@ && pair.pq_public()
                    == pq_public@ && pair.created_at() == created_at && pair.id()
                    == identity_id_of(classical_public@, pq_public@),
                Err(e) => e == if !ed25519_is_key(classical_public@) {
                    IdentityKeyError::InvalidClassicalPublicKey
                } else if pq_private@.len() != DILITHIUM_SECRET_KEY_LEN {
                    IdentityKeyError::InvalidPqPrivateKey
                } else {
                    IdentityKeyError::InvalidPqPublicKey
                } && (!ed25519_is_key(classical_public@) || pq_private@.len()
                    != DILITHIUM_SECRET_KEY_LEN || pq_public@.len() != DILITHIUM_PUBLIC_KEY_LEN),
            },
    {
        if !ed25519_key_is_valid(classical_public) {
            return Err(IdentityKeyError::InvalidClassicalPublicKey);
        }
        if pq_private.len() != DILITHIUM_SECRET_KEY_LEN {
            return Err(IdentityKeyError::InvalidPqPrivateKey);
        }
        if pq_public.len() != DILITHIUM_PUBLIC_KEY_LEN {
            return Err(IdentityKeyError::InvalidPqPublicKey);
        }
        let identity_id = derive_identity_id(classical_public, pq_public);
        Ok(
            IdentityKeyPair {
                classical_private: *classical_private,
                classical_public: *classical_public,
                pq_private: copy_bytes(pq_private),
                pq_public: copy_bytes(pq_public),
                identity_id,
                created_at,
            },
        )
    }

    /// The public half of the identity.
    pub fn public_key(&self) -> (out: IdentityKey)
        ensures
            out.classical_public@ == self.classical_public(),
            out.pq_public@ == self.pq_public(),
            out.identity_id.0@ == self.id(),
            out.created_at == self.created_at(),
            out.identity_id.0@ == identity_id_of(out.classical_public@, out.pq_public@),
    {
        proof {
            use_type_invariant(self);
        }
        IdentityKey {
            classical_public: self.classical_public,
            pq_public: copy_bytes(self.pq_public.as_slice()),
            identity_id: self.identity_id,
            created_at: self.created_at,
        }
    }

    /// The identifier of the identity.
    pub fn identity_id(&self) -> (out: IdentityId)
        ensures
            out.0@ == self.id(),
            out.0@ == identity_id_of(self.classical_public(), self.pq_public()),
    {
        proof {
            use_type_invariant(self);
        }
        self.identity_id
    }

    /// Signs `data` as of the time `timestamp`, with both keys: each signs
    /// the data, the time and the signer's identifier.
    pub fn sign_at(&self, data: &[u8], timestamp: u64) -> (out: HybridSignature)
        ensures
            out.classical_signature@ == ed25519_signature(
                self.classical_private(),
                signed_message(data@, timestamp, self.id()),
            ),
            out.pq_signature@ == dilithium2_signature(
                signed_message(data@, timestamp, self.id()),
                self.pq_private(),
            ),
            out.signer_identity.0@ == self.id(),
            out.timestamp == timestamp,
    {
        proof {
            use_type_invariant(self);
        }
        let message = message_to_sign(data, timestamp, &self.identity_id);
        let classical_signature = ed25519_sign(&self.classical_private, message.as_slice());
        let pq_signature = match dilithium2_sign(message.as_slice(), self.pq_private.as_slice()) {
            Some(signature) => signature,
            None => unreached(),
        };
        HybridSignature {
            classical_signature,
            pq_signature,
            signer_identity: self.identity_id,
            timestamp,
        }
    }

    /// Signs `data` as of now.
    pub fn sign(&self, data: &[u8]) -> (out: HybridSignature)
        ensures
            out.classical_signature@ == ed25519_signature(
                self.classical_private(),
                signed_message(data@, out.timestamp, self.id()),
            ),
            out.pq_signature@ == dilithium2_signature(
                signed_message(data@, out.timestamp, self.id()),
                self.pq_private(),
            ),
            out.signer_identity.0@ == self.id(),
    {
        self.sign_at(data, unix_time_secs())
    }
}

impl Drop for IdentityKeyPair {
    /// An identity that goes away overwrites its secret keys with zeros.
    fn drop(&mut self)
        opens_invariants none
        no_unwind
    {
        proof {
            use_type_invariant(&*self);
        }
        zeroize_key(&mut self.classical_private);
        zeroize_vec(&mut self.pq_private);
    }
}

/// Whether a hybrid signature on `data` is accepted at time `now` under
/// the public keys of the identity `identity_id`: the signer is that
/// identity, the signature is fresh, and both the classical and the
/// post-quantum signature are valid.
pub open spec fn hybrid_accepts(
    classical_public: Seq<u8>,
    pq_public: Seq<u8>,
    identity_id: Seq<u8>,
    data: Seq<u8>,
    classical_signature: Seq<u8>,
    pq_signature: Seq<u8>,
    signer_identity: Seq<u8>,
    timestamp: u64,
    now: u64,
) -> bool {
    &&& signer_identity == identity_id
    &&& is_fresh(timestamp, now)
    &&& ed25519_accepts(
        classical_public,
        signed_message(data, timestamp, identity_id),
        classical_signature,
    )
    &&& dilithium2_accepts(
        pq_signature,
        signed_message(data, timestamp, identity_id),
        pq_public,
    )
}

/// The fingerprint of eight bytes: four groups of four upper-case
/// hexadecimal digits, with a blank between the groups.
pub open spec fn fingerprint_text(bytes: Seq<u8>) -> Seq<char> {
    hex_text_upper(bytes.subrange(0, 2)) + seq![' '] + hex_text_upper(bytes.subrange(2, 4))
        + seq![' '] + hex_text_upper(bytes.subrange(4, 6)) + seq![' '] + hex_text_upper(
        bytes.subrange(6, 8),
    )
}

impl IdentityKey {
    /// Whether `signature` on `data` is accepted at time `now`.
    pub open spec fn accepts(&self, data: Seq<u8>, signature: HybridSignature, now: u64) -> bool {
        hybrid_accepts(
            self.classical_public@,
            self.pq_public@,
            self.identity_id.0@,
            data,
            signature.classical_signature@,
            signature.pq_signature@,
            signature.signer_identity.0@,
            signature.timestamp,
            now,
        )
    }

    /// Verifies a hybrid signature on `data` as of the time `now`.
    pub fn verify_at(&self, data: &[u8], signature: &HybridSignature, now: u64) -> (out: bool)
        ensures
            out == self.accepts(data@, *signature, now),
    {
        if !bytes_equal(signature.signer_identity.0.as_slice(), self.identity_id.0.as_slice()) {
            return false;
        }
        if now > signature.timestamp && now - signature.timestamp > SIGNATURE_MAX_AGE_SECS {
            return false;
        }
        let message = message_to_sign(data, signature.timestamp, &self.identity_id);
        let classical_valid = ed25519_verify(
            &self.classical_public,
            message.as_slice(),
            &signature.classical_signature,
        );
        let pq_valid = dilithium2_verify(
            signature.pq_signature.as_slice(),
            message.as_slice(),
            self.pq_public.as_slice(),
        );
        classical_valid && pq_valid
    }

    /// Verifies a hybrid signature on `data` as of now: the answer is that
    /// of `verify_at` for the time the clock shows.
    pub fn verify(&self, data: &[u8], signature: &HybridSignature) -> (out: bool)
        ensures
            exists|now: u64| out == #[trigger] self.accepts(data@, *signature, now),
            !self.accepts(data@, *signature, signature.timestamp) ==> !out,
    {
        let now = unix_time_secs();
        let out = self.verify_at(data, signature, now);
        assert(out == self.accepts(data@, *signature, now));
        out
    }

    /// A short fingerprint of the public keys, for people to compare.
    pub fn fingerprint(&self) -> (out: String)
        ensures
            out@ == fingerprint_text(
                blake3_digest(self.classical_public@ + self.pq_public@).subrange(0, 8),
            ),
    {
        let fed = concat2(self.classical_public.as_slice(), self.pq_public.as_slice());
        let digest = blake3_hash(fed.as_slice());
        let bytes = vstd::slice::slice_subrange(digest.as_slice(), 0, 8);
        let ghost eight = digest@.subrange(0, 8);
        let first = hex_encode_upper(vstd::slice::slice_subrange(bytes, 0, 2));
        let second = hex_encode_upper(vstd::slice::slice_subrange(bytes, 2, 4));
        let third = hex_encode_upper(vstd::slice::slice_subrange(bytes, 4, 6));
        let fourth = hex_encode_upper(vstd::slice::slice_subrange(bytes, 6, 8));
        proof {
            reveal_strlit(" ");
            assert(" "@ =~= seq![' ']);
        }
        first.concat(" ").concat(second.as_str()).concat(" ").concat(third.as_str()).concat(
            " ",
        ).concat(fourth.as_str())
    }
}

/// A signature that an identity makes is accepted under its public key
/// for as long as it is fresh, whatever was signed: the keys must belong
/// together.
pub proof fn law_own_signature_is_accepted(
    classical_private: Seq<u8>,
    classical_public: Seq<u8>,
    pq_private: Seq<u8>,
    pq_public: Seq<u8>,
    identity_id: Seq<u8>,
    data: Seq<u8>,
    timestamp: u64,
    now: u64,
)
    requires
        keys_belong(classical_private, classical_public, pq_private, pq_public),
        is_fresh(timestamp, now),
    ensures
        hybrid_accepts(
            classical_public,
            pq_public,
            identity_id,
            data,
            ed25519_signature(classical_private, signed_message(data, timestamp, identity_id)),
            dilithium2_signature(signed_message(data, timestamp, identity_id), pq_private),
            identity_id,
            timestamp,
            now,
        ),
{
}

} // verus!
